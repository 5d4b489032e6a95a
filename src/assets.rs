//! The asset manifest: a plain-text file that lists, one per line, the
//! files to copy into the output tree.

use vstd::prelude::*;

verus! {

/// Unicode's White_Space property.
pub open spec fn white_space(c: char) -> bool {
    ||| '\u{9}' <= c <= '\u{d}'
    ||| c == ' '
    ||| c == '\u{85}'
    ||| c == '\u{a0}'
    ||| c == '\u{1680}'
    ||| '\u{2000}' <= c <= '\u{200a}'
    ||| c == '\u{2028}'
    ||| c == '\u{2029}'
    ||| c == '\u{202f}'
    ||| c == '\u{205f}'
    ||| c == '\u{3000}'
}

/// Whether `c` has Unicode's White_Space property.
pub fn is_white(c: char) -> (r: bool)
    ensures
        r == white_space(c),
{
    ('\u{9}' <= c && c <= '\u{d}') || c == ' ' || c == '\u{85}' || c == '\u{a0}' || c == '\u{1680}'
        || ('\u{2000}' <= c && c <= '\u{200a}') || c == '\u{2028}' || c == '\u{2029}' || c == '\u{202f}'
        || c == '\u{205f}' || c == '\u{3000}'
}

/// `s` without its leading white space.
pub open spec fn trim_start(s: Seq<char>) -> Seq<char>
    decreases s.len(),
{
    if s.len() > 0 && white_space(s[0]) {
        trim_start(s.skip(1))
    } else {
        s
    }
}

/// `s` without its trailing white space.
pub open spec fn trim_end(s: Seq<char>) -> Seq<char>
    decreases s.len(),
{
    if s.len() > 0 && white_space(s.last()) {
        trim_end(s.drop_last())
    } else {
        s
    }
}

/// `s` without white space at either end.
pub open spec fn trim(s: Seq<char>) -> Seq<char> {
    trim_end(trim_start(s))
}

/// The index of the first occurrence of `c` in `s`, or -1 where there is none.
pub open spec fn first_index(s: Seq<char>, c: char) -> int
    decreases s.len(),
{
    if s.len() == 0 {
        -1
    } else if s[0] == c {
        0
    } else if first_index(s.skip(1), c) < 0 {
        -1
    } else {
        first_index(s.skip(1), c) + 1
    }
}

/// The entry that one line of the manifest gives: its trimmed text, or
/// nothing where that is empty.
pub open spec fn line_entry(line: Seq<char>) -> Seq<Seq<char>> {
    if trim(line).len() == 0 {
        Seq::<Seq<char>>::empty()
    } else {
        seq![trim(line)]
    }
}

/// The entries of a manifest: its lines, split on `\n`, each trimmed, in
/// order, with the lines that are blank after trimming left out.
pub open spec fn manifest_entries(text: Seq<char>) -> Seq<Seq<char>>
    decreases text.len() via manifest_entries_decreases
{
    if first_index(text, '\n') < 0 {
        line_entry(text)
    } else {
        line_entry(text.take(first_index(text, '\n')))
            + manifest_entries(text.skip(first_index(text, '\n') + 1))
    }
}

#[via_fn]
proof fn manifest_entries_decreases(text: Seq<char>) {
    lemma_first_index_bound(text, '\n');
}

/// The first occurrence of `c`, where there is one, lies within `s`.
proof fn lemma_first_index_bound(s: Seq<char>, c: char)
    ensures
        -1 <= first_index(s, c) < s.len(),
    decreases s.len(),
{
    if s.len() > 0 {
        lemma_first_index_bound(s.skip(1), c);
    }
}

/// The first occurrence of `c` in `s` is at `j`, or there is none where
/// `j` is the length of `s`.
proof fn lemma_first_index(s: Seq<char>, c: char, j: int)
    requires
        0 <= j <= s.len(),
        forall|k: int| 0 <= k < j ==> s[k] != c,
        j < s.len() ==> s[j] == c,
    ensures
        first_index(s, c) == (if j == s.len() { -1 } else { j }),
    decreases s.len(),
{
    if s.len() > 0 && j > 0 {
        lemma_first_index(s.skip(1), c, j - 1);
    }
}

/// A blank line at the start of a manifest adds no entry: the manifest has
/// the same entries without it.
pub proof fn lemma_leading_blank_line(text: Seq<char>)
    ensures
        manifest_entries(seq!['\n'] + text) == manifest_entries(text),
{
    let full = seq!['\n'] + text;
    assert(full[0] == '\n');
    assert(full.take(0) =~= Seq::<char>::empty());
    assert(full.skip(1) =~= text);
    assert(line_entry(Seq::<char>::empty()) =~= Seq::<Seq<char>>::empty());
    assert(manifest_entries(full) =~= manifest_entries(text));
}

/// Trims white space from both ends of `s`.
pub fn trim_text(s: &str) -> (r: String)
    ensures
        r@ == trim(s@),
{
    let n = s.unicode_len();
    let mut a: usize = 0;
    assert(s@.skip(0) =~= s@);
    while a < n && is_white(s.get_char(a))
        invariant
            a <= n,
            n == s@.len(),
            trim_start(s@) == trim_start(s@.skip(a as int)),
        decreases n - a,
    {
        assert(s@.skip(a as int).skip(1) =~= s@.skip(a + 1));
        a += 1;
    }
    let mut b: usize = n;
    assert(trim_start(s@) == s@.subrange(a as int, n as int)) by {
        assert(s@.skip(a as int) =~= s@.subrange(a as int, n as int));
    }
    while b > a && is_white(s.get_char(b - 1))
        invariant
            a <= b <= n,
            n == s@.len(),
            trim(s@) == trim_end(s@.subrange(a as int, b as int)),
        decreases b - a,
    {
        assert(s@.subrange(a as int, b as int).drop_last() =~= s@.subrange(a as int, b - 1));
        b -= 1;
    }
    String::from_str(s.substring_char(a, b))
}

/// Reads the entries of an asset manifest.
pub fn manifest_lines(text: &str) -> (r: Vec<String>)
    ensures
        r@.map_values(|e: String| e@) == manifest_entries(text@),
{
    let n = text.unicode_len();
    let mut out: Vec<String> = Vec::new();
    let mut start: usize = 0;
    assert(text@.skip(0) =~= text@);
    assert(out@.map_values(|e: String| e@) + manifest_entries(text@) =~= manifest_entries(text@));
    let mut done = false;
    while !done
        invariant
            start <= n,
            n == text@.len(),
            !done ==> manifest_entries(text@) == out@.map_values(|e: String| e@)
                + manifest_entries(text@.skip(start as int)),
            done ==> manifest_entries(text@) == out@.map_values(|e: String| e@),
        decreases n + 1 - start, if done { 0int } else { 1int },
    {
        let ghost rest = text@.skip(start as int);
        let mut j: usize = start;
        while j < n && text.get_char(j) != '\n'
            invariant
                start <= j <= n,
                n == text@.len(),
                forall|k: int| start <= k < j ==> text@[k] != '\n',
            decreases n - j,
        {
            j += 1;
        }
        proof {
            lemma_first_index(rest, '\n', j - start);
        }
        let line = trim_text(text.substring_char(start, j));
        assert(text@.subrange(start as int, j as int) =~= rest.take(j - start));
        let ghost before = out@.map_values(|e: String| e@);
        if line.unicode_len() > 0 {
            out.push(line);
        }
        assert(out@.map_values(|e: String| e@) =~= before + line_entry(rest.take(j - start)));
        if j < n {
            assert(rest.skip(j - start + 1) =~= text@.skip(j + 1));
            start = j + 1;
        } else {
            assert(out@.map_values(|e: String| e@) =~= before + line_entry(rest));
            done = true;
        }
    }
    out
}

} // verus!
