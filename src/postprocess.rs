//! Deterministic cleanup of model-generated Markdown.
//!
//! Each pass is a function on characters with an exact specification; the
//! passes run in a fixed order in [`clean_markdown`].
use vstd::prelude::*;
use crate::text::{
    chars_of, char_is_ws, contains_seq, extend_chars, has_prefix, has_suffix, is_ws, join_lines, join_lines_exec,
    lines, lines_of, slice_chars, string_of, trim, trim_end, trim_end_bound, trim_start,
    trim_start_bound, views,
};

verus! {

// ── Outer code fence ─────────────────────────────────────────────────────

/// The whole (trimmed) text is a fenced block `` ```markdown\n…\n``` `` or
/// `` ```\n…\n``` ``: its inner content, else the input unchanged.
pub open spec fn strip_fences_spec(s: Seq<char>) -> Seq<char> {
    let t = trim(s);
    let open_md = seq!['`', '`', '`', 'm', 'a', 'r', 'k', 'd', 'o', 'w', 'n', '\n'];
    let open_plain = seq!['`', '`', '`', '\n'];
    let close = seq!['\n', '`', '`', '`'];
    if has_prefix(t, open_md) && t.len() >= 16 && has_suffix(t, close) {
        t.subrange(12, t.len() - 4)
    } else if has_prefix(t, open_plain) && t.len() >= 8 && has_suffix(t, close) {
        t.subrange(4, t.len() - 4)
    } else {
        s
    }
}

fn has_prefix_at(s: &Vec<char>, lo: usize, hi: usize, p: &[char]) -> (r: bool)
    requires
        lo <= hi <= s.len(),
    ensures
        r == has_prefix(s@.subrange(lo as int, hi as int), p@),
{
    if p.len() > hi - lo {
        return false;
    }
    let mut k: usize = 0;
    while k < p.len()
        invariant
            k <= p.len() <= hi - lo,
            lo <= hi <= s.len(),
            forall|m: int| 0 <= m < k ==> s@[lo + m] == p@[m],
        decreases p.len() - k,
    {
        if s[lo + k] != p[k] {
            assert(s@.subrange(lo as int, hi as int).subrange(0, p@.len() as int)[k as int] != p@[k as int]);
            return false;
        }
        k += 1;
    }
    assert(s@.subrange(lo as int, hi as int).subrange(0, p@.len() as int) =~= p@);
    true
}

fn has_suffix_at(s: &Vec<char>, lo: usize, hi: usize, p: &[char]) -> (r: bool)
    requires
        lo <= hi <= s.len(),
    ensures
        r == has_suffix(s@.subrange(lo as int, hi as int), p@),
{
    if p.len() > hi - lo {
        return false;
    }
    let base: usize = hi - p.len();
    let mut k: usize = 0;
    while k < p.len()
        invariant
            k <= p.len() <= hi - lo,
            base == hi - p.len(),
            lo <= hi <= s.len(),
            forall|m: int| 0 <= m < k ==> s@[base + m] == p@[m],
        decreases p.len() - k,
    {
        if s[base + k] != p[k] {
            let ghost t = s@.subrange(lo as int, hi as int);
            assert(t.subrange(t.len() - p@.len(), t.len() as int)[k as int] != p@[k as int]);
            return false;
        }
        k += 1;
    }
    let ghost t = s@.subrange(lo as int, hi as int);
    assert(t.subrange(t.len() - p@.len(), t.len() as int) =~= p@);
    true
}

fn strip_fences_chars(s: &Vec<char>) -> (r: Vec<char>)
    ensures
        r@ == strip_fences_spec(s@),
{
    let a = trim_start_bound(s, 0, s.len());
    let b = trim_end_bound(s, a, s.len());
    assert(s@.subrange(0, s.len() as int) =~= s@);
    let ghost t = s@.subrange(a as int, b as int);
    assert(t == trim(s@));
    let open_md: [char; 12] = ['`', '`', '`', 'm', 'a', 'r', 'k', 'd', 'o', 'w', 'n', '\n'];
    let open_plain: [char; 4] = ['`', '`', '`', '\n'];
    let close: [char; 4] = ['\n', '`', '`', '`'];
    assert(open_md@ =~= seq!['`', '`', '`', 'm', 'a', 'r', 'k', 'd', 'o', 'w', 'n', '\n']);
    assert(open_plain@ =~= seq!['`', '`', '`', '\n']);
    assert(close@ =~= seq!['\n', '`', '`', '`']);
    let n = b - a;
    if has_prefix_at(s, a, b, open_md.as_slice()) && n >= 16 && has_suffix_at(s, a, b, close.as_slice()) {
        let r = slice_chars(s, a + 12, b - 4);
        assert(r@ =~= t.subrange(12, t.len() - 4));
        r
    } else if has_prefix_at(s, a, b, open_plain.as_slice()) && n >= 8 && has_suffix_at(
        s,
        a,
        b,
        close.as_slice(),
    ) {
        let r = slice_chars(s, a + 4, b - 4);
        assert(r@ =~= t.subrange(4, t.len() - 4));
        r
    } else {
        s.clone()
    }
}

/// Removes an outer `` ```markdown `` (or bare `` ``` ``) fence wrapping the whole text.
pub fn strip_markdown_fences(input: &str) -> (r: String)
    ensures
        r@ == strip_fences_spec(input@),
{
    let cs = chars_of(input);
    string_of(&strip_fences_chars(&cs))
}

// ── Line endings ─────────────────────────────────────────────────────────

/// What character `i` of `s` becomes: a `'\r'` before `'\n'` disappears, any
/// other `'\r'` becomes `'\n'`, everything else stays.
pub open spec fn eol_piece(s: Seq<char>, i: int) -> Seq<char> {
    if s[i] == '\r' && i + 1 < s.len() && s[i + 1] == '\n' {
        Seq::<char>::empty()
    } else if s[i] == '\r' {
        seq!['\n']
    } else {
        seq![s[i]]
    }
}

/// The first `n` characters of `s` with line endings normalised.
pub open spec fn eol_upto(s: Seq<char>, n: int) -> Seq<char>
    decreases n,
{
    if n <= 0 {
        Seq::<char>::empty()
    } else {
        eol_upto(s, n - 1) + eol_piece(s, n - 1)
    }
}

/// `s` with `"\r\n"` and lone `'\r'` turned into `'\n'`.
pub open spec fn normalise_eol_spec(s: Seq<char>) -> Seq<char> {
    eol_upto(s, s.len() as int)
}

fn normalise_eol_chars(s: &Vec<char>) -> (r: Vec<char>)
    ensures
        r@ == normalise_eol_spec(s@),
{
    let mut out: Vec<char> = Vec::new();
    let mut i: usize = 0;
    while i < s.len()
        invariant
            i <= s.len(),
            out@ == eol_upto(s@, i as int),
        decreases s.len() - i,
    {
        let c = s[i];
        if c == '\r' && i + 1 < s.len() && s[i + 1] == '\n' {
            assert(out@ =~= eol_upto(s@, i + 1));
        } else if c == '\r' {
            out.push('\n');
            assert(out@ =~= eol_upto(s@, i + 1));
        } else {
            out.push(c);
            assert(out@ =~= eol_upto(s@, i + 1));
        }
        i += 1;
    }
    out
}

/// Turns `"\r\n"` and lone `'\r'` into `'\n'`.
pub fn normalise_line_endings(input: &str) -> (r: String)
    ensures
        r@ == normalise_eol_spec(input@),
{
    let cs = chars_of(input);
    string_of(&normalise_eol_chars(&cs))
}

// ── Trailing whitespace ──────────────────────────────────────────────────

/// Each line with its trailing whitespace removed, up to line `n`.
pub open spec fn trim_lines_upto(ls: Seq<Seq<char>>, n: int) -> Seq<Seq<char>>
    decreases n,
{
    if n <= 0 {
        Seq::<Seq<char>>::empty()
    } else {
        trim_lines_upto(ls, n - 1).push(trim_end(ls[n - 1]))
    }
}

/// The lines of `s`, each without trailing whitespace, joined with `'\n'`.
pub open spec fn trim_trailing_spec(s: Seq<char>) -> Seq<char> {
    join_lines(trim_lines_upto(lines(s), lines(s).len() as int))
}

fn trim_trailing_chars(s: &Vec<char>) -> (r: Vec<char>)
    ensures
        r@ == trim_trailing_spec(s@),
{
    let ls = lines_of(s);
    let mut out: Vec<Vec<char>> = Vec::new();
    let mut i: usize = 0;
    while i < ls.len()
        invariant
            i <= ls.len(),
            views(ls@) == lines(s@),
            views(out@) == trim_lines_upto(views(ls@), i as int),
        decreases ls.len() - i,
    {
        let e = trim_end_bound(&ls[i], 0, ls[i].len());
        let t = slice_chars(&ls[i], 0, e);
        assert(ls@[i as int]@.subrange(0, ls@[i as int]@.len() as int) =~= ls@[i as int]@);
        let ghost prev = views(out@);
        out.push(t);
        assert(views(out@) =~= prev.push(t@));
        i += 1;
    }
    join_lines_exec(&out)
}

/// Removes trailing whitespace from every line.
pub fn trim_trailing_whitespace(input: &str) -> (r: String)
    ensures
        r@ == trim_trailing_spec(input@),
{
    let cs = chars_of(input);
    string_of(&trim_trailing_chars(&cs))
}

// ── Blank lines ──────────────────────────────────────────────────────────

/// Character `i` is the fourth or later newline of a run.
pub open spec fn excess_newline(s: Seq<char>, i: int) -> bool {
    i >= 3 && s[i] == '\n' && s[i - 1] == '\n' && s[i - 2] == '\n' && s[i - 3] == '\n'
}

/// The first `n` characters of `s` without excess newlines.
pub open spec fn collapse_upto(s: Seq<char>, n: int) -> Seq<char>
    decreases n,
{
    if n <= 0 {
        Seq::<char>::empty()
    } else if excess_newline(s, n - 1) {
        collapse_upto(s, n - 1)
    } else {
        collapse_upto(s, n - 1).push(s[n - 1])
    }
}

/// `s` with every run of four or more newlines cut to three.
pub open spec fn collapse_spec(s: Seq<char>) -> Seq<char> {
    collapse_upto(s, s.len() as int)
}

fn collapse_chars(s: &Vec<char>) -> (r: Vec<char>)
    ensures
        r@ == collapse_spec(s@),
{
    let mut out: Vec<char> = Vec::new();
    let mut i: usize = 0;
    while i < s.len()
        invariant
            i <= s.len(),
            out@ == collapse_upto(s@, i as int),
        decreases s.len() - i,
    {
        if !(i >= 3 && s[i] == '\n' && s[i - 1] == '\n' && s[i - 2] == '\n' && s[i - 3] == '\n') {
            out.push(s[i]);
        }
        i += 1;
    }
    out
}

/// Cuts every run of four or more newlines down to three (at most two blank lines).
pub fn collapse_blank_lines(input: &str) -> (r: String)
    ensures
        r@ == collapse_spec(input@),
{
    let cs = chars_of(input);
    string_of(&collapse_chars(&cs))
}

// ── Invisible characters ─────────────────────────────────────────────────

/// Zero-width and formatting characters that carry no visible content.
pub open spec fn is_invisible(c: char) -> bool {
    c == '\u{200B}' || c == '\u{FEFF}' || c == '\u{00AD}' || c == '\u{200C}' || c == '\u{200D}'
        || c == '\u{2060}'
}

/// `s` without its invisible characters.
pub open spec fn drop_invisible(s: Seq<char>) -> Seq<char>
    decreases s.len(),
{
    if s.len() == 0 {
        s
    } else if is_invisible(s.last()) {
        drop_invisible(s.drop_last())
    } else {
        drop_invisible(s.drop_last()).push(s.last())
    }
}

fn drop_invisible_chars(s: &Vec<char>) -> (r: Vec<char>)
    ensures
        r@ == drop_invisible(s@),
{
    let mut out: Vec<char> = Vec::new();
    let mut i: usize = 0;
    while i < s.len()
        invariant
            i <= s.len(),
            out@ == drop_invisible(s@.subrange(0, i as int)),
        decreases s.len() - i,
    {
        let c = s[i];
        assert(s@.subrange(0, i + 1).drop_last() =~= s@.subrange(0, i as int));
        if !(c == '\u{200B}' || c == '\u{FEFF}' || c == '\u{00AD}' || c == '\u{200C}' || c
            == '\u{200D}' || c == '\u{2060}') {
            out.push(c);
        }
        i += 1;
    }
    assert(s@.subrange(0, s.len() as int) =~= s@);
    out
}

/// Removes zero-width spaces, byte-order marks, soft hyphens, zero-width
/// (non-)joiners and word joiners.
pub fn remove_invisible_chars(input: &str) -> (r: String)
    ensures
        r@ == drop_invisible(input@),
{
    let cs = chars_of(input);
    string_of(&drop_invisible_chars(&cs))
}

// ── Final newline ────────────────────────────────────────────────────────

/// `s` without trailing whitespace, followed by exactly one newline.
pub open spec fn final_newline_spec(s: Seq<char>) -> Seq<char> {
    trim_end(s).push('\n')
}

fn final_newline_chars(s: &Vec<char>) -> (r: Vec<char>)
    ensures
        r@ == final_newline_spec(s@),
{
    let e = trim_end_bound(s, 0, s.len());
    assert(s@.subrange(0, s.len() as int) =~= s@);
    let mut r = slice_chars(s, 0, e);
    r.push('\n');
    r
}

/// Ends the text with exactly one newline (an empty text becomes `"\n"`).
pub fn ensure_final_newline(input: &str) -> (r: String)
    ensures
        r@ == final_newline_spec(input@),
{
    let cs = chars_of(input);
    string_of(&final_newline_chars(&cs))
}

// ── Heading spacing ──────────────────────────────────────────────────────

/// A heading line: one or more `#`, a space, then at least one more character.
pub open spec fn heading_line(l: Seq<char>) -> bool {
    exists|k: int|
        1 <= k && k + 1 < l.len() && l[k] == ' ' && (forall|j: int| 0 <= j < k ==> #[trigger] l[j]
            == '#')
}

/// `s` without its trailing newlines.
pub open spec fn strip_nl_end(s: Seq<char>) -> Seq<char>
    decreases s.len(),
{
    if s.len() > 0 && s.last() == '\n' {
        strip_nl_end(s.drop_last())
    } else {
        s
    }
}

/// The first `n` lines written out, each followed by a newline, with exactly
/// one blank line before every heading that is not the first line.
pub open spec fn heads_upto(ls: Seq<Seq<char>>, n: int) -> Seq<char>
    decreases n,
{
    if n <= 0 {
        Seq::<char>::empty()
    } else {
        let prev = heads_upto(ls, n - 1);
        let base = if n - 1 > 0 && heading_line(ls[n - 1]) {
            strip_nl_end(prev) + seq!['\n', '\n']
        } else {
            prev
        };
        base + ls[n - 1] + seq!['\n']
    }
}

/// The text re-written line by line with a blank line before each heading.
pub open spec fn heading_spacing_spec(s: Seq<char>) -> Seq<char> {
    heads_upto(lines(s), lines(s).len() as int)
}

fn is_heading_exec(l: &Vec<char>) -> (r: bool)
    ensures
        r == heading_line(l@),
{
    let mut k: usize = 0;
    while k < l.len() && l[k] == '#'
        invariant
            k <= l.len(),
            forall|j: int| 0 <= j < k ==> l@[j] == '#',
        decreases l.len() - k,
    {
        k += 1;
    }
    let r = k >= 1 && k < l.len() && l.len() - k > 1 && l[k] == ' ';
    if r {
        assert(forall|j: int| 0 <= j < k ==> #[trigger] l@[j] == '#');
    } else {
        proof {
            if heading_line(l@) {
                let w = choose|w: int|
                    1 <= w && w + 1 < l@.len() && l@[w] == ' ' && (forall|j: int|
                        0 <= j < w ==> #[trigger] l@[j] == '#');
                if w < k {
                    assert(l@[w] == '#');
                } else if w > k {
                    assert(l@[k as int] == '#');
                }
            }
        }
    }
    r
}

fn strip_nl_end_exec(v: &mut Vec<char>)
    ensures
        final(v)@ == strip_nl_end(old(v)@),
{
    let mut j: usize = v.len();
    assert(v@.subrange(0, j as int) =~= v@);
    while j > 0 && v[j - 1] == '\n'
        invariant
            j <= v.len(),
            strip_nl_end(v@.subrange(0, j as int)) == strip_nl_end(old(v)@),
            v@ == old(v)@,
        decreases j,
    {
        assert(v@.subrange(0, j as int).drop_last() =~= v@.subrange(0, j - 1));
        j -= 1;
    }
    v.truncate(j);
    assert(v@ =~= old(v)@.subrange(0, j as int));
}

fn heading_spacing_chars(s: &Vec<char>) -> (r: Vec<char>)
    ensures
        r@ == heading_spacing_spec(s@),
{
    let ls = lines_of(s);
    let mut out: Vec<char> = Vec::new();
    let mut i: usize = 0;
    while i < ls.len()
        invariant
            i <= ls.len(),
            views(ls@) == lines(s@),
            out@ == heads_upto(views(ls@), i as int),
        decreases ls.len() - i,
    {
        if i > 0 && is_heading_exec(&ls[i]) {
            strip_nl_end_exec(&mut out);
            out.push('\n');
            out.push('\n');
        }
        extend_chars(&mut out, &ls[i]);
        out.push('\n');
        i += 1;
    }
    out
}

/// Puts one blank line before every heading that is not at the start.
pub fn normalise_heading_spacing(input: &str) -> (r: String)
    ensures
        r@ == heading_spacing_spec(input@),
{
    let cs = chars_of(input);
    string_of(&heading_spacing_chars(&cs))
}

// ── Tables ───────────────────────────────────────────────────────────────

/// A table row: once trimmed, longer than two characters and starting and
/// ending with `|`.
pub open spec fn table_row(l: Seq<char>) -> bool {
    let t = trim(l);
    t.len() > 2 && t[0] == '|' && t.last() == '|'
}

/// A character allowed in a separator row.
pub open spec fn sep_char(c: char) -> bool {
    c == '|' || c == '-' || c == ':' || c == ' '
}

/// A separator row: once trimmed, starts with `|` and holds only `|`, `-`, `:` and spaces.
pub open spec fn separator_row(l: Seq<char>) -> bool {
    let t = trim(l);
    t.len() > 0 && t[0] == '|' && (forall|i: int| 0 <= i < t.len() ==> sep_char(#[trigger] t[i]))
}

/// The number of `|` characters among the first `n` of `l`.
pub open spec fn bars_upto(l: Seq<char>, n: int) -> nat
    decreases n,
{
    if n <= 0 {
        0
    } else if l[n - 1] == '|' {
        bars_upto(l, n - 1) + 1
    } else {
        bars_upto(l, n - 1)
    }
}

/// The column count of a row: one less than its `|` count, at least one.
pub open spec fn column_count(l: Seq<char>) -> nat {
    let b = bars_upto(l, l.len() as int);
    if b >= 2 {
        (b - 1) as nat
    } else {
        1
    }
}

/// `"|"` followed by `n` copies of `" --- |"`.
pub open spec fn separator_line(n: nat) -> Seq<char>
    decreases n,
{
    if n == 0 {
        seq!['|']
    } else {
        separator_line((n - 1) as nat) + seq![' ', '-', '-', '-', ' ', '|']
    }
}

fn trimmed_bounds(l: &Vec<char>) -> (r: (usize, usize))
    ensures
        r.0 <= r.1 <= l.len(),
        l@.subrange(r.0 as int, r.1 as int) == trim(l@),
{
    let a = trim_start_bound(l, 0, l.len());
    let b = trim_end_bound(l, a, l.len());
    assert(l@.subrange(0, l.len() as int) =~= l@);
    (a, b)
}

fn is_table_row_exec(l: &Vec<char>) -> (r: bool)
    ensures
        r == table_row(l@),
{
    let (a, b) = trimmed_bounds(l);
    b - a > 2 && l[a] == '|' && l[b - 1] == '|'
}

fn is_separator_row_exec(l: &Vec<char>) -> (r: bool)
    ensures
        r == separator_row(l@),
{
    let (a, b) = trimmed_bounds(l);
    let ghost t = l@.subrange(a as int, b as int);
    if b == a || l[a] != '|' {
        return false;
    }
    let mut i: usize = a;
    while i < b
        invariant
            a <= i <= b <= l.len(),
            t == l@.subrange(a as int, b as int),
            t == trim(l@),
            forall|j: int| 0 <= j < i - a ==> sep_char(#[trigger] t[j]),
        decreases b - i,
    {
        let c = l[i];
        if !(c == '|' || c == '-' || c == ':' || c == ' ') {
            assert(t[(i - a) as int] == l@[i as int]);
            assert(!sep_char(t[(i - a) as int]));
            return false;
        }
        i += 1;
    }
    true
}

/// Whether the line is a Markdown table row.
pub fn is_table_row(line: &str) -> (r: bool)
    ensures
        r == table_row(line@),
{
    is_table_row_exec(&chars_of(line))
}

/// Whether the line is a table separator row such as `| --- | :-: |`.
pub fn is_separator_row(line: &str) -> (r: bool)
    ensures
        r == separator_row(line@),
{
    is_separator_row_exec(&chars_of(line))
}

fn column_count_exec(l: &Vec<char>) -> (r: usize)
    ensures
        r == column_count(l@),
{
    let mut b: usize = 0;
    let mut i: usize = 0;
    while i < l.len()
        invariant
            i <= l.len(),
            b == bars_upto(l@, i as int),
            b <= i,
        decreases l.len() - i,
    {
        if l[i] == '|' {
            b += 1;
        }
        i += 1;
    }
    if b >= 2 {
        b - 1
    } else {
        1
    }
}

fn separator_line_exec(n: usize) -> (r: Vec<char>)
    ensures
        r@ == separator_line(n as nat),
{
    let mut out: Vec<char> = Vec::new();
    out.push('|');
    let mut k: usize = 0;
    assert(out@ =~= separator_line(0));
    while k < n
        invariant
            k <= n,
            out@ == separator_line(k as nat),
        decreases n - k,
    {
        out.push(' ');
        out.push('-');
        out.push('-');
        out.push('-');
        out.push(' ');
        out.push('|');
        k += 1;
        assert(out@ =~= separator_line(k as nat));
    }
    out
}

/// Line `i` is a header-like row directly followed by another non-separator row.
pub open spec fn needs_separator(ls: Seq<Seq<char>>, i: int) -> bool {
    table_row(ls[i]) && !separator_row(ls[i]) && i + 1 < ls.len() && table_row(ls[i + 1])
        && !separator_row(ls[i + 1])
}

/// The first `n` lines, each table row that is directly followed by another
/// non-separator row getting a separator row after it.
pub open spec fn fix_upto(ls: Seq<Seq<char>>, n: int) -> Seq<Seq<char>>
    decreases n,
{
    if n <= 0 {
        Seq::<Seq<char>>::empty()
    } else if needs_separator(ls, n - 1) {
        fix_upto(ls, n - 1).push(ls[n - 1]).push(separator_line(column_count(ls[n - 1])))
    } else {
        fix_upto(ls, n - 1).push(ls[n - 1])
    }
}

/// The text with missing table separator rows inserted, lines joined with `'\n'`.
pub open spec fn fix_tables_spec(s: Seq<char>) -> Seq<char> {
    join_lines(fix_upto(lines(s), lines(s).len() as int))
}

fn fix_tables_chars(s: &Vec<char>) -> (r: Vec<char>)
    ensures
        r@ == fix_tables_spec(s@),
{
    let ls = lines_of(s);
    let mut out: Vec<Vec<char>> = Vec::new();
    let mut i: usize = 0;
    while i < ls.len()
        invariant
            i <= ls.len(),
            views(ls@) == lines(s@),
            views(out@) == fix_upto(views(ls@), i as int),
        decreases ls.len() - i,
    {
        let ghost prev = views(out@);
        let row = is_table_row_exec(&ls[i]) && !is_separator_row_exec(&ls[i]);
        let next_row = i + 1 < ls.len() && is_table_row_exec(&ls[i + 1])
            && !is_separator_row_exec(&ls[i + 1]);
        out.push(ls[i].clone());
        if row && next_row {
            let n = column_count_exec(&ls[i]);
            let sep = separator_line_exec(n);
            out.push(sep);
        }
        assert(views(out@) =~= fix_upto(views(ls@), i + 1));
        i += 1;
    }
    join_lines_exec(&out)
}

/// Inserts a `| --- |` separator after a table row that is directly followed
/// by another non-separator row.
pub fn fix_broken_tables(input: &str) -> (r: String)
    ensures
        r@ == fix_tables_spec(input@),
{
    let cs = chars_of(input);
    string_of(&fix_tables_chars(&cs))
}

/// The position (from one) of line `i` within its run of table rows; zero
/// when it is no table row.
pub open spec fn table_pos(ls: Seq<Seq<char>>, i: int) -> nat
    decreases i,
{
    if i < 0 || !table_row(ls[i]) {
        0
    } else if i == 0 {
        1
    } else {
        table_pos(ls, i - 1) + 1
    }
}

/// Line `i` stays: it is no separator row inside a table other than the
/// table's second row.
pub open spec fn keeps_line(ls: Seq<Seq<char>>, i: int) -> bool {
    !(table_row(ls[i]) && separator_row(ls[i]) && table_pos(ls, i) != 2)
}

/// The first `n` lines without stray separator rows.
pub open spec fn mid_upto(ls: Seq<Seq<char>>, n: int) -> Seq<Seq<char>>
    decreases n,
{
    if n <= 0 {
        Seq::<Seq<char>>::empty()
    } else if keeps_line(ls, n - 1) {
        mid_upto(ls, n - 1).push(ls[n - 1])
    } else {
        mid_upto(ls, n - 1)
    }
}

/// The text without separator rows other than each table's second row, lines
/// joined with `'\n'`.
pub open spec fn mid_separators_spec(s: Seq<char>) -> Seq<char> {
    join_lines(mid_upto(lines(s), lines(s).len() as int))
}

fn mid_separators_chars(s: &Vec<char>) -> (r: Vec<char>)
    ensures
        r@ == mid_separators_spec(s@),
{
    let ls = lines_of(s);
    let mut out: Vec<Vec<char>> = Vec::new();
    let mut pos: usize = 0;
    let mut i: usize = 0;
    while i < ls.len()
        invariant
            i <= ls.len(),
            views(ls@) == lines(s@),
            views(out@) == mid_upto(views(ls@), i as int),
            pos == table_pos(views(ls@), i - 1),
            pos <= i,
        decreases ls.len() - i,
    {
        let ghost prev = views(out@);
        if is_table_row_exec(&ls[i]) {
            pos = pos + 1;
            if !(is_separator_row_exec(&ls[i]) && pos != 2) {
                out.push(ls[i].clone());
            }
        } else {
            pos = 0;
            out.push(ls[i].clone());
        }
        assert(views(out@) =~= mid_upto(views(ls@), i + 1));
        i += 1;
    }
    join_lines_exec(&out)
}

/// Drops separator rows that sit anywhere in a table but its second row.
pub fn remove_mid_table_separators(input: &str) -> (r: String)
    ensures
        r@ == mid_separators_spec(input@),
{
    let cs = chars_of(input);
    string_of(&mid_separators_chars(&cs))
}

// ── Image links ──────────────────────────────────────────────────────────

/// The first index at or after `p` where `s` holds `c`, or `s.len()` if none.
pub open spec fn first_from(s: Seq<char>, p: int, c: char) -> int
    decreases s.len() - p,
{
    if p < 0 || p >= s.len() {
        s.len() as int
    } else if s[p] == c {
        p
    } else {
        first_from(s, p + 1, c)
    }
}

/// An image link `![alt](url)` starts at `p`: `alt` holds no `]` and `url` no `)`.
pub open spec fn image_at(s: Seq<char>, p: int) -> bool {
    let a = first_from(s, p + 2, ']');
    let u = first_from(s, a + 2, ')');
    0 <= p && p + 1 < s.len() && s[p] == '!' && s[p + 1] == '[' && p + 2 <= a && a + 1 < s.len()
        && s[a + 1] == '(' && a + 2 <= u < s.len()
}

/// Domains that only appear in made-up image links.
pub open spec fn placeholder_domain(d: Seq<char>) -> bool {
    d == "example.com"@ || d == "placeholder.com"@ || d == "via.placeholder.com"@ || d
        == "dummyimage.com"@ || d == "lorempixel.com"@ || d == "picsum.photos"@ || d
        == "placehold.it"@
}

/// Where the host of an absolute `http(s)://` URL starts.
pub open spec fn host_start(u: Seq<char>) -> int {
    if has_prefix(u, "https://"@) {
        8
    } else {
        7
    }
}

/// The first index at or after `p` holding `/`, `?` or `#`, or `s.len()`.
pub open spec fn authority_end(s: Seq<char>, p: int) -> int
    decreases s.len() - p,
{
    if p < 0 || p >= s.len() {
        s.len() as int
    } else if s[p] == '/' || s[p] == '?' || s[p] == '#' {
        p
    } else {
        authority_end(s, p + 1)
    }
}

/// The host of an absolute `http(s)://` URL: after the scheme, up to the
/// path, query or fragment, without the port.
pub open spec fn url_host(u: Seq<char>) -> Seq<char> {
    let a = host_start(u);
    let e = authority_end(u, a);
    let c = first_from(u, a, ':');
    u.subrange(a, if c < e {
        c
    } else {
        e
    })
}

/// The host is the domain `d` or one of its subdomains.
pub open spec fn host_matches(h: Seq<char>, d: Seq<char>) -> bool {
    h == d || has_suffix(h, seq!['.'] + d)
}

/// A host that is a placeholder domain or one of its subdomains.
pub open spec fn placeholder_host(h: Seq<char>) -> bool {
    exists|d: Seq<char>| placeholder_domain(d) && #[trigger] host_matches(h, d)
}

/// A URL that cannot point at a real figure: empty once trimmed, not absolute
/// `http(s)://`, or with a placeholder host.
pub open spec fn placeholder_url(url: Seq<char>) -> bool {
    let u = trim(url);
    u.len() == 0 || (!has_prefix(u, "http://"@) && !has_prefix(u, "https://"@)) || placeholder_host(
        url_host(u),
    )
}

/// What replaces the image link `![alt](url)` spanning `s[p..end]`.
pub open spec fn image_replacement(s: Seq<char>, p: int, alt: Seq<char>, url: Seq<char>, end: int) -> Seq<
    char,
> {
    if placeholder_url(url) {
        let t = trim(alt);
        if t.len() == 0 {
            Seq::<char>::empty()
        } else {
            seq!['*'] + t + seq!['*']
        }
    } else {
        s.subrange(p, end)
    }
}

/// `s[p..]` with each placeholder image link replaced by its italic caption.
pub open spec fn images_from(s: Seq<char>, p: int) -> Seq<char>
    decreases s.len() - p,
{
    if p < 0 || p >= s.len() {
        Seq::<char>::empty()
    } else if image_at(s, p) {
        let a = first_from(s, p + 2, ']');
        let u = first_from(s, a + 2, ')');
        image_replacement(s, p, s.subrange(p + 2, a), s.subrange(a + 2, u), u + 1) + images_from(
            s,
            u + 1,
        )
    } else {
        seq![s[p]] + images_from(s, p + 1)
    }
}

/// The text with made-up image links replaced by their italic captions.
pub open spec fn images_spec(s: Seq<char>) -> Seq<char> {
    images_from(s, 0)
}

fn first_from_exec(s: &Vec<char>, p: usize, c: char) -> (r: usize)
    requires
        p <= s.len(),
    ensures
        r == first_from(s@, p as int, c),
        p <= r <= s.len(),
{
    let mut i: usize = p;
    while i < s.len() && s[i] != c
        invariant
            p <= i <= s.len(),
            first_from(s@, i as int, c) == first_from(s@, p as int, c),
        decreases s.len() - i,
    {
        i += 1;
    }
    i
}

fn authority_end_exec(s: &Vec<char>, p: usize) -> (r: usize)
    requires
        p <= s.len(),
    ensures
        r == authority_end(s@, p as int),
        p <= r <= s.len(),
{
    let mut i: usize = p;
    while i < s.len() && s[i] != '/' && s[i] != '?' && s[i] != '#'
        invariant
            p <= i <= s.len(),
            authority_end(s@, i as int) == authority_end(s@, p as int),
        decreases s.len() - i,
    {
        i += 1;
    }
    i
}

fn same_chars(a: &Vec<char>, b: &Vec<char>) -> (r: bool)
    ensures
        r == (a@ == b@),
{
    if a.len() != b.len() {
        return false;
    }
    let r = crate::text::starts_with_chars(a, b);
    assert(a@ =~= a@.subrange(0, b@.len() as int));
    r
}

fn placeholder_host_exec(h: &Vec<char>) -> (r: bool)
    ensures
        r == placeholder_host(h@),
{
    let domains: [&str; 7] = [
        "example.com",
        "placeholder.com",
        "via.placeholder.com",
        "dummyimage.com",
        "lorempixel.com",
        "picsum.photos",
        "placehold.it",
    ];
    let mut k: usize = 0;
    while k < 7
        invariant
            k <= 7,
            domains@ == seq![
                "example.com",
                "placeholder.com",
                "via.placeholder.com",
                "dummyimage.com",
                "lorempixel.com",
                "picsum.photos",
                "placehold.it",
            ],
            forall|m: int|
                0 <= m < k ==> !(h@ == (#[trigger] domains@[m])@ || has_suffix(
                    h@,
                    seq!['.'] + domains@[m]@,
                )),
        decreases 7 - k,
    {
        let d = chars_of(domains[k]);
        let mut dotted: Vec<char> = Vec::new();
        dotted.push('.');
        extend_chars(&mut dotted, &d);
        assert(dotted@ =~= seq!['.'] + d@);
        if same_chars(h, &d) || crate::text::ends_with_chars(h, &dotted) {
            assert(d@ == domains@[k as int]@);
            assert(placeholder_domain(d@)) by {
                if k == 0 {
                } else if k == 1 {
                } else if k == 2 {
                } else if k == 3 {
                } else if k == 4 {
                } else if k == 5 {
                } else {
                }
            }
            let ghost dv = d@;
            assert(placeholder_domain(dv) && host_matches(h@, dv));
            assert(placeholder_host(h@));
            return true;
        }
        k += 1;
    }
    assert forall|d: Seq<char>| placeholder_domain(d) implies !#[trigger] host_matches(h@, d) by {
        assert(!(h@ == domains@[0]@ || has_suffix(h@, seq!['.'] + domains@[0]@)));
        assert(!(h@ == domains@[1]@ || has_suffix(h@, seq!['.'] + domains@[1]@)));
        assert(!(h@ == domains@[2]@ || has_suffix(h@, seq!['.'] + domains@[2]@)));
        assert(!(h@ == domains@[3]@ || has_suffix(h@, seq!['.'] + domains@[3]@)));
        assert(!(h@ == domains@[4]@ || has_suffix(h@, seq!['.'] + domains@[4]@)));
        assert(!(h@ == domains@[5]@ || has_suffix(h@, seq!['.'] + domains@[5]@)));
        assert(!(h@ == domains@[6]@ || has_suffix(h@, seq!['.'] + domains@[6]@)));
    }
    false
}

fn placeholder_url_exec(s: &Vec<char>, lo: usize, hi: usize) -> (r: bool)
    requires
        lo <= hi <= s.len(),
    ensures
        r == placeholder_url(s@.subrange(lo as int, hi as int)),
{
    let ghost url = s@.subrange(lo as int, hi as int);
    let a = trim_start_bound(s, lo, hi);
    let b = trim_end_bound(s, a, hi);
    let u = slice_chars(s, a, b);
    assert(u@ == trim(url));
    if u.len() == 0 {
        return true;
    }
    let http = chars_of("http://");
    let https = chars_of("https://");
    let is_https = crate::text::starts_with_chars(&u, &https);
    if !crate::text::starts_with_chars(&u, &http) && !is_https {
        return true;
    }
    proof {
        reveal_strlit("http://");
        reveal_strlit("https://");
    }
    let start: usize = if is_https {
        8
    } else {
        7
    };
    assert(start == host_start(u@));
    let e = authority_end_exec(&u, start);
    let c = first_from_exec(&u, start, ':');
    let stop = if c < e {
        c
    } else {
        e
    };
    let host = slice_chars(&u, start, stop);
    placeholder_host_exec(&host)
}

/// Whether an image URL is missing, relative, or on a placeholder domain.
pub fn is_placeholder_url(url: &str) -> (r: bool)
    ensures
        r == placeholder_url(url@),
{
    let cs = chars_of(url);
    assert(cs@.subrange(0, cs@.len() as int) =~= cs@);
    placeholder_url_exec(&cs, 0, cs.len())
}

fn images_chars(s: &Vec<char>) -> (r: Vec<char>)
    ensures
        r@ == images_spec(s@),
{
    let mut out: Vec<char> = Vec::new();
    let mut p: usize = 0;
    while p < s.len()
        invariant
            p <= s.len(),
            out@ + images_from(s@, p as int) == images_from(s@, 0),
        decreases s.len() - p,
    {
        let ghost before = out@;
        if p + 1 < s.len() && s[p] == '!' && s[p + 1] == '[' {
            let a = first_from_exec(s, p + 2, ']');
            if s.len() - a > 1 && s[a + 1] == '(' {
                let u = first_from_exec(s, a + 2, ')');
                if u < s.len() {
                    assert(image_at(s@, p as int));
                    if placeholder_url_exec(s, a + 2, u) {
                        let x = trim_start_bound(s, p + 2, a);
                        let y = trim_end_bound(s, x, a);
                        assert(s@.subrange(x as int, y as int) == trim(
                            s@.subrange(p + 2, a as int),
                        ));
                        if x < y {
                            out.push('*');
                            let t = slice_chars(s, x, y);
                            extend_chars(&mut out, &t);
                            out.push('*');
                        }
                    } else {
                        let t = slice_chars(s, p, u + 1);
                        extend_chars(&mut out, &t);
                    }
                    assert(out@ + images_from(s@, u + 1) =~= before + images_from(s@, p as int));
                    p = u + 1;
                    continue;
                }
            }
        }
        assert(!image_at(s@, p as int));
        out.push(s[p]);
        assert(out@ + images_from(s@, p + 1) =~= before + images_from(s@, p as int));
        p += 1;
    }
    assert(out@ =~= out@ + images_from(s@, p as int));
    out
}

/// Replaces image links whose URL is made up with the italic alt text (or
/// nothing when the alt text is blank); real links stay as they are.
pub fn remove_hallucinated_images(input: &str) -> (r: String)
    ensures
        r@ == images_spec(input@),
{
    let cs = chars_of(input);
    string_of(&images_chars(&cs))
}

// ── The whole pipeline ───────────────────────────────────────────────────

/// All ten passes, in order.
pub open spec fn clean_spec(s: Seq<char>) -> Seq<char> {
    final_newline_spec(
        drop_invisible(
            images_spec(
                mid_separators_spec(
                    fix_tables_spec(
                        heading_spacing_spec(
                            collapse_spec(
                                trim_trailing_spec(normalise_eol_spec(strip_fences_spec(s))),
                            ),
                        ),
                    ),
                ),
            ),
        ),
    )
}

/// `s` ends with one newline, not preceded by another.
pub open spec fn single_final_newline(s: Seq<char>) -> bool {
    s.len() > 0 && s.last() == '\n' && (s.len() >= 2 ==> s[s.len() - 2] != '\n')
}

/// `s` holds none of the invisible characters.
pub open spec fn free_of_invisible(s: Seq<char>) -> bool {
    forall|i: int| 0 <= i < s.len() ==> !is_invisible(#[trigger] s[i])
}

/// Trimming the end keeps a prefix whose last character is no whitespace.
pub proof fn lemma_trim_end_shape(s: Seq<char>)
    ensures
        trim_end(s).len() <= s.len(),
        trim_end(s) == s.subrange(0, trim_end(s).len() as int),
        trim_end(s).len() > 0 ==> !is_ws(trim_end(s).last()),
    decreases s.len(),
{
    if s.len() > 0 && is_ws(s.last()) {
        lemma_trim_end_shape(s.drop_last());
        assert(s.drop_last().subrange(0, trim_end(s).len() as int) =~= s.subrange(
            0,
            trim_end(s).len() as int,
        ));
    } else {
        assert(s.subrange(0, s.len() as int) =~= s);
    }
}

/// Dropping invisible characters leaves none.
pub proof fn lemma_drop_invisible_free(s: Seq<char>)
    ensures
        free_of_invisible(drop_invisible(s)),
    decreases s.len(),
{
    if s.len() > 0 {
        lemma_drop_invisible_free(s.drop_last());
    }
}

/// Ending with one newline after trimming gives a single final newline, and
/// keeps a text free of invisible characters free of them.
pub proof fn lemma_final_newline_shape(s: Seq<char>)
    ensures
        single_final_newline(final_newline_spec(s)),
        free_of_invisible(s) ==> free_of_invisible(final_newline_spec(s)),
{
    lemma_trim_end_shape(s);
    let t = trim_end(s);
    let r = t.push('\n');
    if r.len() >= 2 {
        assert(r[r.len() - 2] == t.last());
    }
    if free_of_invisible(s) {
        assert forall|i: int| 0 <= i < r.len() implies !is_invisible(#[trigger] r[i]) by {
            if i < t.len() {
                assert(t[i] == s[i]);
            }
        }
    }
}

/// Runs all ten cleanup passes: fences, line endings, trailing whitespace,
/// blank lines, heading spacing, missing and stray table separators, made-up
/// image links, invisible characters, final newline.
pub fn clean_markdown(input: &str) -> (r: String)
    ensures
        r@ == clean_spec(input@),
        single_final_newline(r@),
        free_of_invisible(r@),
{
    let s0 = chars_of(input);
    let s1 = strip_fences_chars(&s0);
    let s2 = normalise_eol_chars(&s1);
    let s3 = trim_trailing_chars(&s2);
    let s4 = collapse_chars(&s3);
    let s5 = heading_spacing_chars(&s4);
    let s6 = fix_tables_chars(&s5);
    let s7 = mid_separators_chars(&s6);
    let s8 = images_chars(&s7);
    let s9 = drop_invisible_chars(&s8);
    let s10 = final_newline_chars(&s9);
    proof {
        lemma_drop_invisible_free(s8@);
        lemma_final_newline_shape(s9@);
    }
    string_of(&s10)
}

// ── Passes that are idempotent ───────────────────────────────────────────

proof fn lemma_drop_invisible_keeps_free(s: Seq<char>)
    requires
        free_of_invisible(s),
    ensures
        drop_invisible(s) == s,
    decreases s.len(),
{
    if s.len() > 0 {
        assert(free_of_invisible(s.drop_last())) by {
            assert forall|i: int| 0 <= i < s.drop_last().len() implies !is_invisible(
                #[trigger] s.drop_last()[i],
            ) by {
                assert(s.drop_last()[i] == s[i]);
            }
        }
        lemma_drop_invisible_keeps_free(s.drop_last());
        assert(!is_invisible(s[s.len() - 1]));
        assert(s.drop_last().push(s.last()) =~= s);
    }
}

/// Removing invisible characters twice is removing them once.
pub proof fn lemma_remove_invisible_idempotent(s: Seq<char>)
    ensures
        drop_invisible(drop_invisible(s)) == drop_invisible(s),
{
    lemma_drop_invisible_free(s);
    lemma_drop_invisible_keeps_free(drop_invisible(s));
}

/// Ending with one newline twice is doing it once.
pub proof fn lemma_final_newline_idempotent(s: Seq<char>)
    ensures
        final_newline_spec(final_newline_spec(s)) == final_newline_spec(s),
{
    let t = trim_end(s);
    lemma_trim_end_shape(s);
    let u = t.push('\n');
    assert(u.drop_last() =~= t);
    assert(is_ws('\n'));
    assert(trim_end(u) == trim_end(t));
    if t.len() > 0 {
        assert(!is_ws(t.last()));
    }
    assert(trim_end(t) == t);
}

/// No carriage return among the first `n` characters of `s`.
pub open spec fn no_cr_upto(s: Seq<char>, n: int) -> bool {
    forall|i: int| 0 <= i < n ==> #[trigger] s[i] != '\r'
}

proof fn lemma_eol_upto_no_cr(s: Seq<char>, n: int)
    requires
        0 <= n <= s.len(),
    ensures
        no_cr_upto(eol_upto(s, n), eol_upto(s, n).len() as int),
    decreases n,
{
    if n > 0 {
        lemma_eol_upto_no_cr(s, n - 1);
        let prev = eol_upto(s, n - 1);
        let cur = eol_upto(s, n);
        assert forall|i: int| 0 <= i < cur.len() implies #[trigger] cur[i] != '\r' by {
            if i < prev.len() {
                assert(cur[i] == prev[i]);
            }
        }
    }
}

proof fn lemma_eol_identity(s: Seq<char>, n: int)
    requires
        0 <= n <= s.len(),
        no_cr_upto(s, s.len() as int),
    ensures
        eol_upto(s, n) == s.subrange(0, n),
    decreases n,
{
    if n > 0 {
        lemma_eol_identity(s, n - 1);
        assert(s[n - 1] != '\r');
        assert(s.subrange(0, n - 1).push(s[n - 1]) =~= s.subrange(0, n));
    } else {
        assert(s.subrange(0, 0) =~= Seq::<char>::empty());
    }
}

/// Normalising line endings twice is normalising them once.
pub proof fn lemma_normalise_eol_idempotent(s: Seq<char>)
    ensures
        normalise_eol_spec(normalise_eol_spec(s)) == normalise_eol_spec(s),
{
    let t = normalise_eol_spec(s);
    lemma_eol_upto_no_cr(s, s.len() as int);
    lemma_eol_identity(t, t.len() as int);
    assert(t.subrange(0, t.len() as int) =~= t);
}

/// The number of newlines that `s` ends with.
pub open spec fn trailing_newlines(s: Seq<char>) -> nat
    decreases s.len(),
{
    if s.len() > 0 && s.last() == '\n' {
        trailing_newlines(s.drop_last()) + 1
    } else {
        0
    }
}

/// No character of `s` is the fourth or later newline of a run.
pub open spec fn no_excess_newline(s: Seq<char>) -> bool {
    forall|i: int| 0 <= i < s.len() ==> !#[trigger] excess_newline(s, i)
}

proof fn lemma_trailing_bounded(s: Seq<char>)
    ensures
        trailing_newlines(s) <= s.len(),
    decreases s.len(),
{
    if s.len() > 0 {
        lemma_trailing_bounded(s.drop_last());
    }
}

proof fn lemma_excess_by_trailing(s: Seq<char>, i: int)
    requires
        0 <= i < s.len(),
    ensures
        excess_newline(s, i) <==> (s[i] == '\n' && trailing_newlines(s.subrange(0, i)) >= 3),
{
    let a = s.subrange(0, i);
    lemma_trailing_bounded(a);
    if i >= 3 {
        let b = s.subrange(0, i - 1);
        let c = s.subrange(0, i - 2);
        let d = s.subrange(0, i - 3);
        assert(a.drop_last() =~= b);
        assert(b.drop_last() =~= c);
        assert(c.drop_last() =~= d);
        assert(a.last() == s[i - 1]);
        assert(b.last() == s[i - 2]);
        assert(c.last() == s[i - 3]);
        assert(trailing_newlines(a) == if s[i - 1] == '\n' {
            trailing_newlines(b) + 1
        } else {
            0
        });
        assert(trailing_newlines(b) == if s[i - 2] == '\n' {
            trailing_newlines(c) + 1
        } else {
            0
        });
        assert(trailing_newlines(c) == if s[i - 3] == '\n' {
            trailing_newlines(d) + 1
        } else {
            0
        });
    }
}

proof fn lemma_collapse_trailing(s: Seq<char>, n: int)
    requires
        0 <= n <= s.len(),
    ensures
        trailing_newlines(collapse_upto(s, n)) == if trailing_newlines(s.subrange(0, n)) < 3 {
            trailing_newlines(s.subrange(0, n))
        } else {
            3
        },
        no_excess_newline(collapse_upto(s, n)),
    decreases n,
{
    if n == 0 {
        assert(s.subrange(0, 0) =~= Seq::<char>::empty());
    } else {
        lemma_collapse_trailing(s, n - 1);
        lemma_excess_by_trailing(s, n - 1);
        let prev = collapse_upto(s, n - 1);
        assert(s.subrange(0, n).drop_last() =~= s.subrange(0, n - 1));
        if !excess_newline(s, n - 1) {
            let cur = prev.push(s[n - 1]);
            assert(cur.drop_last() =~= prev);
            assert forall|i: int| 0 <= i < cur.len() implies !#[trigger] excess_newline(cur, i) by {
                if i < prev.len() {
                    assert(!excess_newline(prev, i));
                } else {
                    lemma_excess_by_trailing(cur, i);
                    assert(cur.subrange(0, i) =~= prev);
                }
            }
        }
    }
}

proof fn lemma_collapse_identity(s: Seq<char>, n: int)
    requires
        0 <= n <= s.len(),
        no_excess_newline(s),
    ensures
        collapse_upto(s, n) == s.subrange(0, n),
    decreases n,
{
    if n == 0 {
        assert(s.subrange(0, 0) =~= Seq::<char>::empty());
    } else {
        lemma_collapse_identity(s, n - 1);
        assert(!excess_newline(s, n - 1));
        assert(s.subrange(0, n - 1).push(s[n - 1]) =~= s.subrange(0, n));
    }
}

/// Collapsing blank lines twice is collapsing them once.
pub proof fn lemma_collapse_idempotent(s: Seq<char>)
    ensures
        collapse_spec(collapse_spec(s)) == collapse_spec(s),
{
    let t = collapse_spec(s);
    lemma_collapse_trailing(s, s.len() as int);
    lemma_collapse_identity(t, t.len() as int);
    assert(t.subrange(0, t.len() as int) =~= t);
}

/// The closing pair of passes (invisible characters, then the final newline)
/// gives the same text when run a second time.
pub proof fn lemma_closing_passes_idempotent(s: Seq<char>)
    ensures
        final_newline_spec(drop_invisible(final_newline_spec(drop_invisible(s))))
            == final_newline_spec(drop_invisible(s)),
{
    let t = drop_invisible(s);
    lemma_drop_invisible_free(s);
    lemma_final_newline_shape(t);
    lemma_drop_invisible_keeps_free(final_newline_spec(t));
    lemma_final_newline_idempotent(t);
}

} // verus!
