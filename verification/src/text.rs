//! Character-level text utilities: trimming, substring search, line-pattern
//! tests and splitting text into lines. The entry-point editor is built on
//! these; each executable function is pinned to a spec-level model of the
//! same operation.

use vstd::prelude::*;
use vstd::string::*;

verus! {

/// The whitespace characters that line trimming removes.
pub open spec fn is_ws_char(c: char) -> bool {
    c == ' ' || c == '\t' || c == '\r'
}

/// Index of the first non-whitespace character at or after `i`, or `s.len()`.
pub open spec fn first_non_ws_at(s: Seq<char>, i: int) -> int
    decreases s.len() - i when 0 <= i <= s.len()
{
    if i >= s.len() {
        i
    } else if is_ws_char(s[i]) {
        first_non_ws_at(s, i + 1)
    } else {
        i
    }
}

/// One past the index of the last non-whitespace character before `i`, or `0`.
pub open spec fn last_non_ws_before(s: Seq<char>, i: int) -> int
    decreases i when 0 <= i <= s.len()
{
    if i <= 0 {
        0
    } else if is_ws_char(s[i - 1]) {
        last_non_ws_before(s, i - 1)
    } else {
        i
    }
}

/// `s` with leading and trailing whitespace removed.
pub open spec fn spec_trim(s: Seq<char>) -> Seq<char> {
    let a = first_non_ws_at(s, 0);
    let b = last_non_ws_before(s, s.len() as int);
    if a < b {
        s.subrange(a, b)
    } else {
        Seq::empty()
    }
}

pub proof fn lemma_first_non_ws_at(s: Seq<char>, i: int)
    requires
        0 <= i <= s.len(),
    ensures
        i <= first_non_ws_at(s, i) <= s.len(),
        first_non_ws_at(s, i) < s.len() ==> !is_ws_char(s[first_non_ws_at(s, i)]),
        forall|k: int| i <= k < first_non_ws_at(s, i) ==> is_ws_char(s[k]),
    decreases s.len() - i,
{
    if i < s.len() && is_ws_char(s[i]) {
        lemma_first_non_ws_at(s, i + 1);
    }
}

pub proof fn lemma_last_non_ws_before(s: Seq<char>, i: int)
    requires
        0 <= i <= s.len(),
    ensures
        0 <= last_non_ws_before(s, i) <= i,
        last_non_ws_before(s, i) > 0 ==> !is_ws_char(s[last_non_ws_before(s, i) - 1]),
        forall|k: int| last_non_ws_before(s, i) <= k < i ==> is_ws_char(s[k]),
    decreases i,
{
    if i > 0 && is_ws_char(s[i - 1]) {
        lemma_last_non_ws_before(s, i - 1);
    }
}

/// A string that neither starts nor ends with whitespace trims to itself.
pub proof fn lemma_trim_of_clean(s: Seq<char>)
    requires
        s.len() > 0,
        !is_ws_char(s[0]),
        !is_ws_char(s[s.len() - 1]),
    ensures
        spec_trim(s) == s,
{
    assert(first_non_ws_at(s, 0) == 0);
    assert(last_non_ws_before(s, s.len() as int) == s.len());
    assert(s.subrange(0, s.len() as int) =~= s);
}

/// Compares two string slices character by character.
pub fn str_eq(a: &str, b: &str) -> (r: bool)
    ensures
        r == (a@ == b@),
{
    let a_len = a.unicode_len();
    let b_len = b.unicode_len();
    if a_len != b_len {
        return false;
    }
    let mut i: usize = 0;
    while i < a_len
        invariant
            a@.len() == a_len,
            b@.len() == a_len,
            i <= a_len,
            forall|k: int| 0 <= k < i ==> a@[k] == b@[k],
        decreases a_len - i,
    {
        if a.get_char(i) != b.get_char(i) {
            return false;
        }
        i = i + 1;
    }
    proof {
        assert(a@ =~= b@);
    }
    true
}

/// Tests whether a character is trimmed whitespace.
fn ws_char(c: char) -> (r: bool)
    ensures
        r == is_ws_char(c),
{
    c == ' ' || c == '\t' || c == '\r'
}

/// Returns `s` with leading and trailing spaces, tabs and carriage returns
/// removed.
pub fn trim_str(s: &str) -> (r: String)
    ensures
        r@ == spec_trim(s@),
{
    let len = s.unicode_len();
    let mut a: usize = 0;
    while a < len && ws_char(s.get_char(a))
        invariant
            s@.len() == len,
            a <= len,
            first_non_ws_at(s@, 0) == first_non_ws_at(s@, a as int),
        decreases len - a,
    {
        a = a + 1;
    }
    proof {
        lemma_first_non_ws_at(s@, a as int);
        assert(first_non_ws_at(s@, 0) == a as int);
    }
    let mut b: usize = len;
    while b > a && ws_char(s.get_char(b - 1))
        invariant
            s@.len() == len,
            a <= b <= len,
            first_non_ws_at(s@, 0) == a as int,
            last_non_ws_before(s@, len as int) == last_non_ws_before(s@, b as int),
        decreases b,
    {
        b = b - 1;
    }
    if a < b {
        proof {
            assert(last_non_ws_before(s@, b as int) == b as int);
        }
        let piece = s.substring_char(a, b);
        piece.to_owned()
    } else {
        proof {
            lemma_last_non_ws_before(s@, b as int);
            if a > 0 {
                // every character before `a` is whitespace, so the search for
                // the last non-whitespace character walks down to zero
                lemma_first_non_ws_at(s@, 0);
                lemma_ws_prefix_last_non_ws(s@, b as int);
            }
            assert(last_non_ws_before(s@, s@.len() as int) <= a as int);
        }
        String::new()
    }
}

/// If everything before `i` is whitespace, the last-non-whitespace search
/// from `i` reaches zero.
proof fn lemma_ws_prefix_last_non_ws(s: Seq<char>, i: int)
    requires
        0 <= i <= s.len(),
        forall|k: int| 0 <= k < i ==> is_ws_char(s[k]),
    ensures
        last_non_ws_before(s, i) == 0,
    decreases i,
{
    if i > 0 {
        lemma_ws_prefix_last_non_ws(s, i - 1);
    }
}

/// `needle` occurs in `hay` starting at index `i`.
pub open spec fn occurs_at(hay: Seq<char>, needle: Seq<char>, i: int) -> bool {
    &&& 0 <= i
    &&& i + needle.len() <= hay.len()
    &&& hay.subrange(i, i + needle.len() as int) == needle
}

/// Tests whether `needle` occurs in `hay` at exactly index `i`.
fn matches_at(hay: &str, needle: &str, i: usize) -> (r: bool)
    requires
        i + needle@.len() <= hay@.len(),
    ensures
        r == occurs_at(hay@, needle@, i as int),
{
    let h_len = hay.unicode_len();
    let n_len = needle.unicode_len();
    let mut j: usize = 0;
    while j < n_len
        invariant
            hay@.len() == h_len,
            needle@.len() == n_len,
            i + n_len <= h_len,
            j <= n_len,
            forall|m: int| 0 <= m < j ==> hay@[i + m] == needle@[m],
        decreases n_len - j,
    {
        if hay.get_char(i + j) != needle.get_char(j) {
            proof {
                assert(hay@.subrange(i as int, i + n_len as int)[j as int] != needle@[j as int]);
            }
            return false;
        }
        j = j + 1;
    }
    proof {
        assert(hay@.subrange(i as int, i + n_len as int) =~= needle@);
    }
    true
}

/// Finds the first occurrence of `needle` in `hay`.
pub fn find_first_occurrence(hay: &str, needle: &str) -> (r: Option<usize>)
    ensures
        match r {
            Some(i) => occurs_at(hay@, needle@, i as int) && forall|k: int|
                0 <= k < i ==> !occurs_at(hay@, needle@, k),
            None => forall|k: int| !occurs_at(hay@, needle@, k),
        },
{
    let h_len = hay.unicode_len();
    let n_len = needle.unicode_len();
    if n_len > h_len {
        return None;
    }
    if n_len == 0 {
        proof {
            assert(hay@.subrange(0, 0) =~= needle@);
        }
        return Some(0);
    }
    let mut i: usize = 0;
    while i <= h_len - n_len
        invariant
            hay@.len() == h_len,
            needle@.len() == n_len,
            0 < n_len <= h_len,
            i <= h_len - n_len + 1,
            forall|k: int| 0 <= k < i ==> !occurs_at(hay@, needle@, k),
        decreases h_len - i,
    {
        if matches_at(hay, needle, i) {
            return Some(i);
        }
        i = i + 1;
    }
    None
}

/// A line matches the pattern `<stem> ... <close>`: the stem occurs somewhere
/// in the line, and the closing character occurs at or after the stem's end.
pub open spec fn line_matches(line: Seq<char>, stem: Seq<char>, close: char) -> bool {
    exists|i: int, j: int|
        occurs_at(line, stem, i) && i + stem.len() <= j < line.len() && line[j] == close
}

/// Tests whether `line` matches the pattern `<stem> ... <close>`.
pub fn line_matches_pat(line: &str, stem: &str, close: char) -> (r: bool)
    ensures
        r == line_matches(line@, stem@, close),
{
    let line_len = line.unicode_len();
    let n_len = stem.unicode_len();
    match find_first_occurrence(line, stem) {
        None => false,
        Some(i) => {
            let mut j: usize = i + n_len;
            while j < line_len
                invariant
                    line@.len() == line_len,
                    stem@.len() == n_len,
                    occurs_at(line@, stem@, i as int),
                    i + n_len <= j,
                    forall|k: int| 0 <= k < i ==> !occurs_at(line@, stem@, k),
                    forall|k: int| i + n_len <= k < j ==> line@[k] != close,
                decreases line_len - j,
            {
                if line.get_char(j) == close {
                    return true;
                }
                j = j + 1;
            }
            proof {
                // any witness pair would place the closing character at or
                // after the first stem occurrence's end, where none exists
                assert forall|x: int, y: int|
                    !(occurs_at(line@, stem@, x) && x + stem@.len() <= y < line@.len()
                        && line@[y] == close) by {
                    if occurs_at(line@, stem@, x) {
                        assert(x >= i);
                    }
                }
            }
            false
        },
    }
}

/// The views of a vector of strings.
pub open spec fn views_of(v: Seq<String>) -> Seq<Seq<char>> {
    v.map_values(|s: String| s@)
}

/// Splits `s` at every newline. The result always has at least one element;
/// a trailing newline yields a final empty line.
pub open spec fn spec_lines(s: Seq<char>) -> Seq<Seq<char>>
    decreases s.len(),
{
    if s.len() == 0 {
        seq![Seq::empty()]
    } else if s[0] == '\n' {
        seq![Seq::<char>::empty()] + spec_lines(s.drop_first())
    } else {
        let rest = spec_lines(s.drop_first());
        seq![seq![s[0]] + rest[0]] + rest.drop_first()
    }
}

/// Joins lines with single newlines; the exact inverse of [`spec_lines`].
pub open spec fn spec_unlines(lines: Seq<Seq<char>>) -> Seq<char>
    decreases lines.len(),
{
    if lines.len() == 0 {
        Seq::empty()
    } else if lines.len() == 1 {
        lines[0]
    } else {
        lines[0] + seq!['\n'] + spec_unlines(lines.drop_first())
    }
}

pub proof fn lemma_lines_len(s: Seq<char>)
    ensures
        spec_lines(s).len() >= 1,
    decreases s.len(),
{
    if s.len() > 0 {
        lemma_lines_len(s.drop_first());
    }
}

/// No line produced by [`spec_lines`] contains a newline.
pub proof fn lemma_lines_no_newline_inside(s: Seq<char>)
    ensures
        forall|i: int, k: int|
            0 <= i < spec_lines(s).len() && 0 <= k < spec_lines(s)[i].len()
                ==> spec_lines(s)[i][k] != '\n',
    decreases s.len(),
{
    lemma_lines_len(s);
    if s.len() > 0 {
        lemma_lines_no_newline_inside(s.drop_first());
        let rest = spec_lines(s.drop_first());
        if s[0] == '\n' {
            assert forall|i: int, k: int|
                0 <= i < spec_lines(s).len() && 0 <= k < spec_lines(s)[i].len()
                    implies spec_lines(s)[i][k] != '\n' by {
                if i > 0 {
                    assert(spec_lines(s)[i] == rest[i - 1]);
                }
            }
        } else {
            assert forall|i: int, k: int|
                0 <= i < spec_lines(s).len() && 0 <= k < spec_lines(s)[i].len()
                    implies spec_lines(s)[i][k] != '\n' by {
                if i == 0 {
                    assert(spec_lines(s)[0] == seq![s[0]] + rest[0]);
                } else {
                    assert(spec_lines(s)[i] == rest.drop_first()[i - 1]);
                    assert(rest.drop_first()[i - 1] == rest[i]);
                }
            }
        }
    }
}

/// Joining the split of a text gives the text back.
pub proof fn lemma_unlines_of_lines(s: Seq<char>)
    ensures
        spec_unlines(spec_lines(s)) == s,
    decreases s.len(),
{
    lemma_lines_len(s);
    if s.len() == 0 {
        assert(spec_unlines(spec_lines(s)) =~= s);
    } else {
        lemma_unlines_of_lines(s.drop_first());
        lemma_lines_len(s.drop_first());
        let rest = spec_lines(s.drop_first());
        if s[0] == '\n' {
            let all = seq![Seq::<char>::empty()] + rest;
            assert(spec_lines(s) == all);
            assert(all.len() >= 2);
            assert(all.drop_first() =~~= rest);
            assert(spec_unlines(all) == all[0] + seq!['\n'] + spec_unlines(all.drop_first()));
            assert(all[0] + seq!['\n'] + s.drop_first() =~= s);
        } else {
            let first = seq![s[0]] + rest[0];
            let all = seq![first] + rest.drop_first();
            assert(all.drop_first() =~= rest.drop_first());
            if rest.len() == 1 {
                assert(all.len() == 1);
                assert(spec_unlines(all) == first);
                assert(first =~= s);
            } else {
                assert(spec_lines(s) == all);
                assert(spec_unlines(all) == first + seq!['\n'] + spec_unlines(
                    rest.drop_first(),
                ));
                assert(spec_unlines(rest) == rest[0] + seq!['\n'] + spec_unlines(
                    rest.drop_first(),
                ));
                let x = spec_unlines(rest.drop_first());
                assert(s.drop_first() == rest[0] + seq!['\n'] + x);
                assert(first + seq!['\n'] + x =~= seq![s[0]] + (rest[0] + seq!['\n'] + x));
                assert(seq![s[0]] + s.drop_first() =~= s);
            }
        }
    }
}

/// Splitting a join gives the lines back, provided none of them holds a
/// newline.
pub proof fn lemma_lines_of_unlines(lines: Seq<Seq<char>>)
    requires
        lines.len() >= 1,
        forall|i: int, k: int|
            0 <= i < lines.len() && 0 <= k < lines[i].len() ==> lines[i][k] != '\n',
    ensures
        spec_lines(spec_unlines(lines)) == lines,
    decreases lines.len(), lines[0].len(),
{
    if lines.len() == 1 {
        lemma_lines_all_clean(lines[0]);
        assert(spec_lines(spec_unlines(lines)) =~~= lines);
    } else if lines[0].len() == 0 {
        let s = spec_unlines(lines);
        assert(s == lines[0] + seq!['\n'] + spec_unlines(lines.drop_first()));
        assert(s.len() > 0 && s[0] == '\n');
        assert(s.drop_first() =~= spec_unlines(lines.drop_first()));
        lemma_lines_of_unlines(lines.drop_first());
        assert(spec_lines(s) =~~= lines);
    } else {
        let s = spec_unlines(lines);
        assert(s == lines[0] + seq!['\n'] + spec_unlines(lines.drop_first()));
        assert(s.len() > 0);
        assert(s[0] == lines[0][0]);
        assert(s[0] != '\n');
        let shorter = seq![lines[0].drop_first()] + lines.drop_first();
        assert(s.drop_first() =~= spec_unlines(shorter)) by {
            assert(shorter.len() >= 2);
            assert(spec_unlines(shorter) == shorter[0] + seq!['\n'] + spec_unlines(
                shorter.drop_first(),
            ));
            assert(shorter.drop_first() =~= lines.drop_first());
        }
        assert forall|i: int, k: int|
            0 <= i < shorter.len() && 0 <= k < shorter[i].len()
                implies shorter[i][k] != '\n' by {
            if i > 0 {
                assert(shorter[i] == lines[i]);
            }
        }
        lemma_lines_of_unlines(shorter);
        let rest = spec_lines(s.drop_first());
        assert(rest == shorter);
        assert(spec_lines(s) == seq![seq![s[0]] + rest[0]] + rest.drop_first());
        assert(seq![s[0]] + rest[0] =~= lines[0]);
        assert(rest.drop_first() =~~= lines.drop_first());
        assert(spec_lines(s) =~~= lines);
    }
}

/// A text without newlines splits into a single line, itself.
pub proof fn lemma_lines_all_clean(s: Seq<char>)
    requires
        forall|k: int| 0 <= k < s.len() ==> s[k] != '\n',
    ensures
        spec_lines(s) == seq![s],
    decreases s.len(),
{
    if s.len() == 0 {
        assert(spec_lines(s) =~~= seq![s]);
    } else {
        lemma_lines_all_clean(s.drop_first());
        assert(spec_lines(s) =~~= seq![s]) by {
            assert(seq![s[0]] + s.drop_first() =~= s);
            assert(spec_lines(s.drop_first()).drop_first() =~= Seq::<Seq<char>>::empty());
        }
    }
}

/// Splitting: the first newline separates the first line from the rest.
pub proof fn lemma_lines_split_at_first(s: Seq<char>, k: int)
    requires
        0 <= k < s.len(),
        s[k] == '\n',
        forall|m: int| 0 <= m < k ==> s[m] != '\n',
    ensures
        spec_lines(s) == seq![s.subrange(0, k)] + spec_lines(
            s.subrange(k + 1, s.len() as int),
        ),
    decreases k,
{
    if k == 0 {
        assert(s.subrange(0, 0) =~= Seq::<char>::empty());
        assert(s.drop_first() =~= s.subrange(1, s.len() as int));
    } else {
        let d = s.drop_first();
        assert(d[k - 1] == '\n');
        lemma_lines_split_at_first(d, k - 1);
        lemma_lines_len(d.subrange(k, d.len() as int));
        assert(d.subrange(0, k - 1) =~= s.subrange(1, k));
        assert(d.subrange(k, d.len() as int) =~= s.subrange(k + 1, s.len() as int));
        let rest = spec_lines(d);
        assert(rest[0] == s.subrange(1, k));
        assert(seq![s[0]] + rest[0] =~= s.subrange(0, k));
        assert(rest.drop_first() =~= spec_lines(s.subrange(k + 1, s.len() as int)));
        assert(spec_lines(s) =~= seq![s.subrange(0, k)] + spec_lines(
            s.subrange(k + 1, s.len() as int),
        ));
    }
}

/// Joining after a push appends a newline and the new line.
pub proof fn lemma_unlines_push(lines: Seq<Seq<char>>, l: Seq<char>)
    ensures
        spec_unlines(lines.push(l)) == if lines.len() == 0 {
            l
        } else {
            spec_unlines(lines) + seq!['\n'] + l
        },
    decreases lines.len(),
{
    if lines.len() == 0 {
        assert(lines.push(l).len() == 1);
        assert(lines.push(l)[0] == l);
    } else if lines.len() == 1 {
        assert(lines.push(l).drop_first() =~= seq![l]);
        assert(spec_unlines(seq![l]) == l);
        assert(spec_unlines(lines.push(l)) == lines.push(l)[0] + seq!['\n'] + spec_unlines(
            lines.push(l).drop_first(),
        ));
        assert(spec_unlines(lines.push(l)) == lines[0] + seq!['\n'] + l);
    } else {
        lemma_unlines_push(lines.drop_first(), l);
        assert(lines.push(l).drop_first() =~= lines.drop_first().push(l));
        assert(spec_unlines(lines) + seq!['\n'] + l =~= lines[0] + seq!['\n'] + (spec_unlines(
            lines.drop_first(),
        ) + seq!['\n'] + l));
    }
}

/// Splits a text into its lines.
pub fn split_lines(text: &str) -> (lines: Vec<String>)
    ensures
        views_of(lines@) == spec_lines(text@),
{
    let len = text.unicode_len();
    let mut lines: Vec<String> = Vec::new();
    proof {
        assert(text@.subrange(0, len as int) =~= text@);
        assert(views_of(lines@) =~= Seq::<Seq<char>>::empty());
        assert(views_of(lines@) + spec_lines(text@) =~= spec_lines(text@));
    }
    let mut start: usize = 0;
    let mut i: usize = 0;
    while i < len
        invariant
            text@.len() == len,
            start <= i <= len,
            spec_lines(text@) == views_of(lines@) + spec_lines(
                text@.subrange(start as int, len as int),
            ),
            forall|k: int| start <= k < i ==> text@[k] != '\n',
        decreases len - i,
    {
        if text.get_char(i) == '\n' {
            let piece = text.substring_char(start, i).to_owned();
            proof {
                let rest = text@.subrange(start as int, len as int);
                lemma_lines_split_at_first(rest, i - start);
                assert(rest.subrange(0, i - start) =~= text@.subrange(start as int, i as int));
                assert(rest.subrange(i - start + 1, rest.len() as int) =~= text@.subrange(
                    i + 1,
                    len as int,
                ));
                assert(views_of(lines@.push(piece)) =~= views_of(lines@).push(piece@));
                assert(views_of(lines@).push(piece@) + spec_lines(
                    text@.subrange(i + 1, len as int),
                ) =~= views_of(lines@) + spec_lines(rest));
            }
            lines.push(piece);
            start = i + 1;
        }
        i = i + 1;
    }
    let piece = text.substring_char(start, len).to_owned();
    proof {
        lemma_lines_all_clean(text@.subrange(start as int, len as int));
        assert(views_of(lines@.push(piece)) =~= views_of(lines@).push(piece@));
        assert(views_of(lines@).push(piece@) =~= views_of(lines@) + seq![piece@]);
    }
    lines.push(piece);
    lines
}

/// Joins lines with newlines.
pub fn join_lines(lines: &Vec<String>) -> (text: String)
    ensures
        text@ == spec_unlines(views_of(lines@)),
{
    let mut text = String::new();
    let mut i: usize = 0;
    while i < lines.len()
        invariant
            i <= lines@.len(),
            text@ == spec_unlines(views_of(lines@).take(i as int)),
        decreases lines@.len() - i,
    {
        proof {
            reveal_strlit("\n");
            lemma_unlines_push(views_of(lines@).take(i as int), lines@[i as int]@);
            assert(views_of(lines@).take(i as int).push(lines@[i as int]@) =~= views_of(
                lines@,
            ).take(i + 1));
        }
        if i > 0 {
            text.append("\n");
        }
        text.append(lines[i].as_str());
        i = i + 1;
    }
    proof {
        assert(views_of(lines@).take(lines@.len() as int) =~= views_of(lines@));
    }
    text
}

} // verus!
