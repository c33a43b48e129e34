//! Field parser: splits a raw text blob into rows of trimmed cells.
//!
//! Rows are separated by newlines, cells by commas or tabs, and every
//! cell is stripped of leading and trailing whitespace. The parser is
//! total: every string input yields a table.

use vstd::prelude::*;

verus! {

/// The whitespace characters that trimming removes: the Unicode
/// White_Space set.
pub open spec fn is_space(c: char) -> bool {
    ||| c == ' '
    ||| c == '\t'
    ||| c == '\n'
    ||| c == '\r'
    ||| c == '\u{b}'
    ||| c == '\u{c}'
    ||| c == '\u{85}'
    ||| c == '\u{a0}'
    ||| c == '\u{1680}'
    ||| ('\u{2000}' <= c && c <= '\u{200a}')
    ||| c == '\u{2028}'
    ||| c == '\u{2029}'
    ||| c == '\u{202f}'
    ||| c == '\u{205f}'
    ||| c == '\u{3000}'
}

/// Segments of `s[i..]`, cut at every occurrence of `c1` or `c2`.
/// A text with no separator is one segment; each separator ends a
/// segment, so a trailing separator yields a final empty segment.
pub open spec fn spec_split(s: Seq<char>, i: int, c1: char, c2: char) -> Seq<Seq<char>>
    decreases s.len() - i,
    when 0 <= i <= s.len()
{
    if i >= s.len() {
        seq![Seq::<char>::empty()]
    } else if s[i] == c1 || s[i] == c2 {
        seq![Seq::<char>::empty()] + spec_split(s, i + 1, c1, c2)
    } else {
        let r = spec_split(s, i + 1, c1, c2);
        r.update(0, seq![s[i]] + r[0])
    }
}

pub proof fn lemma_split_len(s: Seq<char>, i: int, c1: char, c2: char)
    requires
        0 <= i <= s.len(),
    ensures
        spec_split(s, i, c1, c2).len() >= 1,
    decreases s.len() - i,
{
    if i < s.len() && !(s[i] == c1 || s[i] == c2) {
        lemma_split_len(s, i + 1, c1, c2);
    }
}

/// A run without separators, ended by a separator or the end of the
/// text, is the first segment of the split.
pub proof fn lemma_split_run(s: Seq<char>, i: int, k: int, c1: char, c2: char)
    requires
        0 <= i <= k <= s.len(),
        forall|j: int| i <= j < k ==> #[trigger] s[j] != c1 && s[j] != c2,
        k == s.len() || s[k as int] == c1 || s[k as int] == c2,
    ensures
        k == s.len() ==> spec_split(s, i, c1, c2) == seq![s.subrange(i, k)],
        k < s.len() ==> spec_split(s, i, c1, c2) == seq![s.subrange(i, k)] + spec_split(
            s,
            k + 1,
            c1,
            c2,
        ),
    decreases k - i,
{
    if i == k {
        assert(s.subrange(i, k) =~= Seq::<char>::empty());
        if k == s.len() {
            assert(spec_split(s, i, c1, c2) =~~= seq![s.subrange(i, k)]);
        } else {
            assert(spec_split(s, i, c1, c2) =~~= seq![s.subrange(i, k)] + spec_split(
                s,
                k + 1,
                c1,
                c2,
            ));
        }
    } else {
        assert(s[i] != c1 && s[i] != c2);
        lemma_split_run(s, i + 1, k, c1, c2);
        let r = spec_split(s, i + 1, c1, c2);
        lemma_split_len(s, i + 1, c1, c2);
        assert(seq![s[i]] + s.subrange(i + 1, k) =~= s.subrange(i, k));
        if k == s.len() {
            assert(spec_split(s, i, c1, c2) =~~= seq![s.subrange(i, k)]);
        } else {
            assert(r[0] == s.subrange(i + 1, k));
            assert(r.update(0, seq![s[i]] + r[0]) =~~= seq![s.subrange(i, k)] + spec_split(
                s,
                k + 1,
                c1,
                c2,
            ));
        }
    }
}

/// First position at or after `i` holding a character that is not a
/// space.
pub open spec fn spec_skip_spaces(s: Seq<char>, i: int) -> int
    decreases s.len() - i,
    when 0 <= i <= s.len()
{
    if i >= s.len() {
        i
    } else if is_space(s[i]) {
        spec_skip_spaces(s, i + 1)
    } else {
        i
    }
}

/// Position after the last character before `j` that is not a space.
pub open spec fn spec_rskip_spaces(s: Seq<char>, j: int) -> int
    decreases j,
    when 0 <= j <= s.len()
{
    if j <= 0 {
        0
    } else if is_space(s[j - 1]) {
        spec_rskip_spaces(s, j - 1)
    } else {
        j
    }
}

pub proof fn lemma_rskip_le(s: Seq<char>, j: int)
    requires
        0 <= j <= s.len(),
    ensures
        0 <= spec_rskip_spaces(s, j) <= j,
    decreases j,
{
    if j > 0 && is_space(s[j - 1]) {
        lemma_rskip_le(s, j - 1);
    }
}

/// The cell with leading and trailing whitespace removed.
pub open spec fn spec_trim(s: Seq<char>) -> Seq<char> {
    let a = spec_skip_spaces(s, 0);
    let b = spec_rskip_spaces(s, s.len() as int);
    if a >= b {
        Seq::<char>::empty()
    } else {
        s.subrange(a, b)
    }
}

/// Cells of one line: split at commas and tabs, each cell trimmed.
pub open spec fn spec_row(line: Seq<char>) -> Seq<Seq<char>> {
    spec_split(line, 0, ',', '\t').map_values(|c: Seq<char>| spec_trim(c))
}

/// Lines of the text: segments at newlines, without the empty segment
/// that a trailing newline leaves.
pub open spec fn spec_text_lines(t: Seq<char>) -> Seq<Seq<char>> {
    let segs = spec_split(t, 0, '\n', '\n');
    if segs.len() > 0 && segs.last().len() == 0 {
        segs.drop_last()
    } else {
        segs
    }
}

/// The whole table of an input text.
pub open spec fn spec_parse_rows(t: Seq<char>) -> Seq<Seq<Seq<char>>> {
    spec_text_lines(t).map_values(|l: Seq<char>| spec_row(l))
}

fn is_space_ex(c: char) -> (b: bool)
    ensures
        b == is_space(c),
{
    c == ' ' || c == '\t' || c == '\n' || c == '\r' || c == '\u{b}' || c == '\u{c}'
        || c == '\u{85}' || c == '\u{a0}' || c == '\u{1680}'
        || ('\u{2000}' <= c && c <= '\u{200a}') || c == '\u{2028}' || c == '\u{2029}'
        || c == '\u{202f}' || c == '\u{205f}' || c == '\u{3000}'
}

/// First position at or after `from` holding `c1` or `c2`.
fn find_sep(s: &str, from: usize, c1: char, c2: char) -> (k: usize)
    requires
        from <= s@.len(),
    ensures
        from <= k <= s@.len(),
        forall|j: int| from <= j < k ==> #[trigger] s@[j] != c1 && s@[j] != c2,
        k < s@.len() ==> s@[k as int] == c1 || s@[k as int] == c2,
{
    let n = s.unicode_len();
    let mut i = from;
    while i < n
        invariant
            from <= i <= n,
            n == s@.len(),
            forall|j: int| from <= j < i ==> #[trigger] s@[j] != c1 && s@[j] != c2,
        decreases n - i,
    {
        let c = s.get_char(i);
        if c == c1 || c == c2 {
            return i;
        }
        i = i + 1;
    }
    i
}

/// The trimmed text of `s[from..to]`.
fn trim_range(s: &str, from: usize, to: usize) -> (r: String)
    requires
        from <= to <= s@.len(),
    ensures
        r@ == spec_trim(s@.subrange(from as int, to as int)),
{
    let ghost t = s@.subrange(from as int, to as int);
    let mut a = from;
    while a < to && is_space_ex(s.get_char(a))
        invariant
            from <= a <= to <= s@.len(),
            t == s@.subrange(from as int, to as int),
            spec_skip_spaces(t, 0) == spec_skip_spaces(t, a - from),
        decreases to - a,
    {
        proof {
            assert(t[a - from] == s@[a as int]);
        }
        a = a + 1;
    }
    let mut b = to;
    while b > a && is_space_ex(s.get_char(b - 1))
        invariant
            from <= a <= b <= to <= s@.len(),
            t == s@.subrange(from as int, to as int),
            spec_rskip_spaces(t, t.len() as int) == spec_rskip_spaces(t, b - from),
        decreases b,
    {
        proof {
            assert(t[b - 1 - from] == s@[b - 1]);
        }
        b = b - 1;
    }
    proof {
        if a < to {
            assert(t[a - from] == s@[a as int]);
            assert(!is_space(t[a - from]));
            assert(spec_skip_spaces(t, a - from) == a - from);
        } else {
            assert(spec_skip_spaces(t, a - from) == a - from);
        }
        if b > a {
            assert(t[b - 1 - from] == s@[b - 1]);
            assert(!is_space(t[b - 1 - from]));
            assert(spec_rskip_spaces(t, b - from) == b - from);
        }
    }
    if b <= a {
        proof {
            lemma_rskip_le(t, b - from);
            assert(spec_trim(t) =~= Seq::<char>::empty());
        }
        String::new()
    } else {
        let piece = s.substring_char(a, b);
        proof {
            assert(piece@ =~= t.subrange(a - from, b - from));
        }
        String::from_str(piece)
    }
}

/// One line turned into its trimmed cells.
fn row_of_line(line: &str) -> (r: Vec<String>)
    ensures
        r.deep_view() == spec_row(line@),
{
    let n = line.unicode_len();
    let mut out: Vec<String> = Vec::new();
    let ghost mut segs = Seq::<Seq<char>>::empty();
    let mut cur: usize = 0;
    let mut go = true;
    while go
        invariant
            cur <= n,
            n == line@.len(),
            go ==> spec_split(line@, 0, ',', '\t') == segs + spec_split(
                line@,
                cur as int,
                ',',
                '\t',
            ),
            !go ==> spec_split(line@, 0, ',', '\t') == segs,
            out.deep_view() == segs.map_values(|c: Seq<char>| spec_trim(c)),
        decreases n - cur, if go { 1int } else { 0int },
    {
        let k = find_sep(line, cur, ',', '\t');
        let cell = trim_range(line, cur, k);
        let ghost seg = line@.subrange(cur as int, k as int);
        let ghost old_out = out.deep_view();
        out.push(cell);
        proof {
            lemma_split_run(line@, cur as int, k as int, ',', '\t');
            let f = |c: Seq<char>| spec_trim(c);
            assert(out.deep_view() =~= old_out.push(spec_trim(seg)));
            assert((segs + seq![seg]).map_values(f) =~= segs.map_values(f).push(spec_trim(seg)));
            if k < n {
                assert(segs + (seq![seg] + spec_split(line@, k + 1, ',', '\t')) =~= (segs + seq![
                    seg,
                ]) + spec_split(line@, k + 1, ',', '\t'));
            } else {
                assert(segs + seq![seg] =~= segs.push(seg));
                assert(segs.push(seg) =~= (segs + seq![seg]));
            }
        }
        proof {
            segs = segs + seq![seg];
        }
        if k < n {
            cur = k + 1;
        } else {
            cur = k;
            go = false;
        }
    }
    proof {
        assert(out.deep_view() == spec_row(line@));
    }
    out
}

/// Lines of the text, as the `lines` iterator of `str` cuts them.
fn text_lines(t: &str) -> (r: Vec<String>)
    ensures
        r.deep_view() == spec_text_lines(t@),
{
    let n = t.unicode_len();
    let mut out: Vec<String> = Vec::new();
    let ghost mut segs = Seq::<Seq<char>>::empty();
    let mut cur: usize = 0;
    let mut go = true;
    while go
        invariant
            cur <= n,
            n == t@.len(),
            go ==> spec_split(t@, 0, '\n', '\n') == segs + spec_split(t@, cur as int, '\n', '\n'),
            !go ==> spec_split(t@, 0, '\n', '\n') == segs,
            out.deep_view() == segs,
        decreases n - cur, if go { 1int } else { 0int },
    {
        let k = find_sep(t, cur, '\n', '\n');
        let piece = t.substring_char(cur, k);
        let ghost seg = t@.subrange(cur as int, k as int);
        let ghost old_out = out.deep_view();
        out.push(String::from_str(piece));
        proof {
            lemma_split_run(t@, cur as int, k as int, '\n', '\n');
            assert(out.deep_view() =~= old_out.push(seg));
            if k < n {
                assert(segs + (seq![seg] + spec_split(t@, k + 1, '\n', '\n')) =~= (segs + seq![
                    seg,
                ]) + spec_split(t@, k + 1, '\n', '\n'));
            }
            assert(segs + seq![seg] =~= segs.push(seg));
        }
        proof {
            segs = segs + seq![seg];
        }
        if k < n {
            cur = k + 1;
        } else {
            cur = k;
            go = false;
        }
    }
    // a trailing newline does not open a new line
    if out.len() > 0 {
        let last = out.len() - 1;
        if out[last].as_str().is_empty() {
            let ghost before = out.deep_view();
            out.pop();
            proof {
                assert(out.deep_view() =~= before.drop_last());
            }
        }
    }
    proof {
        lemma_split_len(t@, 0, '\n', '\n');
        assert(out.deep_view() == spec_text_lines(t@));
    }
    out
}

/// Splits an input text into rows of trimmed cells. Total: every
/// input, the empty text included, yields a table.
pub fn split_to_table(input_text: String) -> (r: Vec<Vec<String>>)
    ensures
        r.deep_view() == spec_parse_rows(input_text@),
{
    let lines = text_lines(input_text.as_str());
    let mut out: Vec<Vec<String>> = Vec::new();
    let mut i: usize = 0;
    while i < lines.len()
        invariant
            i <= lines@.len(),
            lines.deep_view() == spec_text_lines(input_text@),
            out.deep_view() == spec_parse_rows(input_text@).subrange(0, i as int),
        decreases lines@.len() - i,
    {
        let row = row_of_line(lines[i].as_str());
        let ghost before = out.deep_view();
        out.push(row);
        proof {
            assert(lines@[i as int]@ == lines.deep_view()[i as int]);
            assert(out.deep_view() =~= before.push(row.deep_view()));
            assert(out.deep_view() =~= spec_parse_rows(input_text@).subrange(0, i + 1));
        }
        i = i + 1;
    }
    proof {
        assert(spec_parse_rows(input_text@).subrange(0, i as int) =~= spec_parse_rows(
            input_text@,
        ));
    }
    out
}

} // verus!
