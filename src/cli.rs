//! Parsing of the command line's page selection and separator options.
use vstd::prelude::*;
use crate::config::{PageSelection, PageSeparator};
use crate::text::{
    chars_of, slice_chars, string_of, trim, trim_end_bound, trim_start_bound, views,
};

verus! {

/// What `str::to_lowercase` returns for `s`.
pub uninterp spec fn lower_of(s: Seq<char>) -> Seq<char>;

/// Relies on `str::to_lowercase`: the result depends on the characters alone.
#[verifier::external_body]
fn lowercase(s: &str) -> (r: String)
    ensures
        r@ == lower_of(s@),
{
    s.to_lowercase()
}

/// Whether `c` is an ASCII decimal digit.
pub open spec fn is_digit(c: char) -> bool {
    '0' <= c && c <= '9'
}

/// The value of a string of decimal digits.
pub open spec fn digits_value(d: Seq<char>) -> nat
    decreases d.len(),
{
    if d.len() == 0 {
        0
    } else {
        digits_value(d.drop_last()) * 10 + ((d.last() as u32) - ('0' as u32)) as nat
    }
}

/// Every character of `d` is a decimal digit.
pub open spec fn all_digits(d: Seq<char>) -> bool {
    forall|i: int| 0 <= i < d.len() ==> is_digit(#[trigger] d[i])
}

/// The `usize` written by `s`: an optional `+`, then one or more decimal
/// digits whose value fits.
pub open spec fn parsed_usize(s: Seq<char>) -> Option<usize> {
    let d = if s.len() > 0 && s[0] == '+' {
        s.drop_first()
    } else {
        s
    };
    if d.len() > 0 && all_digits(d) && digits_value(d) <= usize::MAX {
        Some(digits_value(d) as usize)
    } else {
        None
    }
}

fn digit_value(c: char) -> (r: usize)
    requires
        is_digit(c),
    ensures
        r as nat == ((c as u32) - ('0' as u32)) as nat,
        r < 10,
{
    ((c as u32) - ('0' as u32)) as usize
}

/// The `usize` written by `s`: an optional `+`, then decimal digits whose
/// value fits.
fn parse_usize(s: &str) -> (r: Option<usize>)
    ensures
        r == parsed_usize(s@),
{
    let cs = chars_of(s);
    let start: usize = if cs.len() > 0 && cs[0] == '+' {
        1
    } else {
        0
    };
    let ghost d = if s@.len() > 0 && s@[0] == '+' {
        s@.drop_first()
    } else {
        s@
    };
    assert(d =~= cs@.subrange(start as int, cs.len() as int));
    if start == cs.len() {
        return None;
    }
    let mut v: usize = 0;
    let mut overflow = false;
    let mut i: usize = start;
    assert(cs@.subrange(start as int, start as int) =~= Seq::<char>::empty());
    while i < cs.len()
        invariant
            start <= i <= cs.len(),
            d == cs@.subrange(start as int, cs.len() as int),
            d == (if s@.len() > 0 && s@[0] == '+' {
                s@.drop_first()
            } else {
                s@
            }),
            forall|m: int| start <= m < i ==> is_digit(#[trigger] cs@[m]),
            !overflow ==> v as nat == digits_value(cs@.subrange(start as int, i as int)),
            overflow ==> digits_value(cs@.subrange(start as int, i as int)) > usize::MAX,
        decreases cs.len() - i,
    {
        let c = cs[i];
        if !('0' <= c && c <= '9') {
            assert(d[i - start] == c);
            assert(!is_digit(d[i - start]));
            assert(!all_digits(d));
            return None;
        }
        let dv = digit_value(c);
        let ghost before = digits_value(cs@.subrange(start as int, i as int));
        assert(cs@.subrange(start as int, i + 1).drop_last() =~= cs@.subrange(
            start as int,
            i as int,
        ));
        assert(digits_value(cs@.subrange(start as int, i + 1)) == before * 10 + dv);
        if overflow {
            assert(before * 10 + dv > usize::MAX) by (nonlinear_arith)
                requires
                    before > usize::MAX,
            ;
        } else if v > (usize::MAX - dv) / 10 {
            assert(v * 10 + dv > usize::MAX) by (nonlinear_arith)
                requires
                    v > (usize::MAX - dv) / 10,
                    dv < 10,
            ;
            overflow = true;
        } else {
            assert(v * 10 + dv <= usize::MAX) by (nonlinear_arith)
                requires
                    v <= (usize::MAX - dv) / 10,
                    dv < 10,
            ;
            v = v * 10 + dv;
        }
        i += 1;
    }
    assert(cs@.subrange(start as int, i as int) == d);
    assert(all_digits(d)) by {
        assert forall|m: int| 0 <= m < d.len() implies is_digit(#[trigger] d[m]) by {
            assert(d[m] == cs@[start + m]);
        }
    }
    if overflow {
        None
    } else {
        Some(v)
    }
}

/// Why a page selection could not be read.
#[derive(Debug, Clone, PartialEq, Eq)]
pub enum PageSpecError {
    /// The part before `-` is no number.
    InvalidStart,
    /// The part after `-` is no number.
    InvalidEnd,
    /// A page number is below one.
    ZeroPage(usize),
    /// A range ends before it starts.
    StartAfterEnd(usize, usize),
    /// A listed page is no number.
    InvalidListItem(String),
    /// The single page is no number.
    InvalidNumber,
}

/// The pieces of `s` between occurrences of `c`.
pub open spec fn split_on(s: Seq<char>, c: char) -> Seq<Seq<char>>
    decreases s.len(),
{
    if s.len() == 0 {
        seq![Seq::<char>::empty()]
    } else {
        let prev = split_on(s.drop_last(), c);
        if s.last() == c {
            prev.push(Seq::<char>::empty())
        } else {
            prev.update(prev.len() - 1, prev.last().push(s.last()))
        }
    }
}

/// The page selection written by a lower-case, trimmed option value `t`.
pub open spec fn selection_ok(t: Seq<char>) -> bool {
    let k = first_index(t, '-');
    if t == "all"@ {
        true
    } else if k < t.len() {
        let a = parsed_usize(trim(t.subrange(0, k)));
        let b = parsed_usize(trim(t.subrange(k + 1, t.len() as int)));
        a is Some && b is Some && a->0 >= 1 && a->0 <= b->0
    } else if first_index(t, ',') < t.len() {
        let ps = split_on(t, ',');
        forall|j: int|
            0 <= j < ps.len() ==> (#[trigger] parsed_usize(trim(ps[j]))) is Some && parsed_usize(
                trim(ps[j]),
            )->0 >= 1
    } else {
        parsed_usize(t) is Some && parsed_usize(t)->0 >= 1
    }
}

/// The first index of `c` in `s`, or `s.len()`.
pub open spec fn first_index(s: Seq<char>, c: char) -> int
    decreases s.len(),
{
    if s.len() == 0 {
        0
    } else if first_index(s.drop_last(), c) < s.len() - 1 {
        first_index(s.drop_last(), c)
    } else if s.last() == c {
        s.len() - 1
    } else {
        s.len() as int
    }
}

fn first_index_exec(s: &Vec<char>, c: char) -> (r: usize)
    ensures
        r == first_index(s@, c),
        r <= s.len(),
{
    let mut i: usize = 0;
    while i < s.len() && s[i] != c
        invariant
            i <= s.len(),
            first_index(s@.subrange(0, i as int), c) == i,
            forall|j: int| 0 <= j < i ==> s@[j] != c,
        decreases s.len() - i,
    {
        assert(s@.subrange(0, i + 1).drop_last() =~= s@.subrange(0, i as int));
        i += 1;
    }
    if i < s.len() {
        assert(s@.subrange(0, i + 1).drop_last() =~= s@.subrange(0, i as int));
        proof {
            lemma_first_index_prefix(s@, i + 1, c);
        }
    } else {
        assert(s@.subrange(0, i as int) =~= s@);
    }
    i
}

proof fn lemma_first_index_prefix(s: Seq<char>, n: int, c: char)
    requires
        0 < n <= s.len(),
        first_index(s.subrange(0, n), c) < n,
    ensures
        first_index(s, c) == first_index(s.subrange(0, n), c),
    decreases s.len() - n,
{
    if n < s.len() {
        assert(s.subrange(0, n + 1).drop_last() =~= s.subrange(0, n));
        lemma_first_index_prefix(s, n + 1, c);
    } else {
        assert(s.subrange(0, n) =~= s);
    }
}

/// The `usize` written by `s[lo..hi]` once trimmed.
fn parse_trimmed(s: &Vec<char>, lo: usize, hi: usize) -> (r: Option<usize>)
    requires
        lo <= hi <= s.len(),
    ensures
        r == parsed_usize(trim(s@.subrange(lo as int, hi as int))),
{
    let a = trim_start_bound(s, lo, hi);
    let b = trim_end_bound(s, a, hi);
    let piece = slice_chars(s, a, b);
    let text = string_of(&piece);
    parse_usize(text.as_str())
}

/// `r` is what reading the lower-case, trimmed option value `t` gives: `Ok`
/// exactly when `t` is well formed, with the form and numbers `t` writes.
pub open spec fn reads_selection(t: Seq<char>, r: Result<PageSelection, PageSpecError>) -> bool {
    &&& (r is Ok <==> selection_ok(t))
    &&& (t == "all"@ ==> r matches Ok(PageSelection::All))
    &&& (r matches Ok(PageSelection::Range(a, b)) ==> {
        let k = first_index(t, '-');
        &&& k < t.len()
        &&& Some(a) == parsed_usize(trim(t.subrange(0, k)))
        &&& Some(b) == parsed_usize(trim(t.subrange(k + 1, t.len() as int)))
    })
    &&& (r matches Ok(PageSelection::List(v)) ==> {
        let ps = split_on(t, ',');
        &&& v.len() == ps.len()
        &&& forall|j: int|
            0 <= j < v.len() ==> Some(#[trigger] v@[j]) == parsed_usize(trim(ps[j]))
    })
    &&& (r matches Ok(PageSelection::Single(p)) ==> Some(p) == parsed_usize(t))
    &&& (t != "all"@ && first_index(t, '-') < t.len() && r is Ok ==> r matches Ok(
        PageSelection::Range(_, _),
    ))
    &&& (t != "all"@ && first_index(t, '-') == t.len() && first_index(t, ',') < t.len() && r is Ok
        ==> r matches Ok(PageSelection::List(_)))
    &&& (t != "all"@ && first_index(t, '-') == t.len() && first_index(t, ',') == t.len() && r is Ok
        ==> r matches Ok(PageSelection::Single(_)))
}

/// Reads a page selection from an already trimmed, lower-case option value:
/// `all`, `N`, `A-B` (one or more, `A <= B`) or `A,B,C` (each one or more).
pub fn parse_pages_lowered(t: &str) -> (r: Result<PageSelection, PageSpecError>)
    ensures
        reads_selection(t@, r),
{
    let s = chars_of(t);
    let all = chars_of("all");
    let is_all = s.len() == all.len() && crate::text::starts_with_chars(&s, &all);
    assert(is_all == (t@ == "all"@)) by {
        if s.len() == all.len() {
            assert(s@.subrange(0, all@.len() as int) =~= s@);
        }
    }
    if is_all {
        return Ok(PageSelection::All);
    }
    let k = first_index_exec(&s, '-');
    if k < s.len() {
        let a = match parse_trimmed(&s, 0, k) {
            Some(a) => a,
            None => {
                return Err(PageSpecError::InvalidStart);
            },
        };
        let b = match parse_trimmed(&s, k + 1, s.len()) {
            Some(b) => b,
            None => {
                return Err(PageSpecError::InvalidEnd);
            },
        };
        if a < 1 {
            return Err(PageSpecError::ZeroPage(a));
        }
        if a > b {
            return Err(PageSpecError::StartAfterEnd(a, b));
        }
        return Ok(PageSelection::Range(a, b));
    }
    let c = first_index_exec(&s, ',');
    assert(s@ == t@);
    if c < s.len() {
        let pieces = split_exec(&s, ',');
        let ghost ps = split_on(s@, ',');
        let mut pages: Vec<usize> = Vec::new();
        let mut j: usize = 0;
        while j < pieces.len()
            invariant
                j <= pieces.len(),
                views(pieces@) == ps,
                ps == split_on(s@, ','),
                s@ == t@,
                t@ != "all"@,
                first_index(t@, '-') == t@.len(),
                first_index(t@, ',') < t@.len(),
                pages.len() == j,
                forall|m: int|
                    0 <= m < j ==> Some(#[trigger] pages@[m]) == parsed_usize(trim(ps[m]))
                        && pages@[m] >= 1,
            decreases pieces.len() - j,
        {
            assert(pieces@[j as int]@ == ps[j as int]);
            let p = match parse_trimmed(&pieces[j], 0, pieces[j].len()) {
                Some(p) => p,
                None => {
                    let a = trim_start_bound(&pieces[j], 0, pieces[j].len());
                    let b = trim_end_bound(&pieces[j], a, pieces[j].len());
                    let item = string_of(&slice_chars(&pieces[j], a, b));
                    assert(pieces@[j as int]@.subrange(0, pieces@[j as int]@.len() as int) =~= ps[j as int]);
                    assert(!(parsed_usize(trim(ps[j as int])) is Some));
                    return Err(PageSpecError::InvalidListItem(item));
                },
            };
            assert(pieces@[j as int]@.subrange(0, pieces@[j as int]@.len() as int) =~= ps[j as int]);
            if p < 1 {
                return Err(PageSpecError::ZeroPage(p));
            }
            pages.push(p);
            j += 1;
        }
        assert(ps.len() == pieces.len());
        assert forall|m: int| 0 <= m < ps.len() implies (#[trigger] parsed_usize(trim(ps[m]))) is Some
            && parsed_usize(trim(ps[m]))->0 >= 1 by {
            assert(Some(pages@[m]) == parsed_usize(trim(ps[m])));
        }
        return Ok(PageSelection::List(pages));
    }
    match parse_usize(t) {
        Some(p) => {
            if p < 1 {
                Err(PageSpecError::ZeroPage(p))
            } else {
                Ok(PageSelection::Single(p))
            }
        },
        None => Err(PageSpecError::InvalidNumber),
    }
}

/// Reads the `--pages` option: trimmed and lower-cased, then as in
/// [`parse_pages_lowered`].
pub fn parse_pages(s: &str) -> (r: Result<PageSelection, PageSpecError>)
    ensures
        reads_selection(lower_of(trim(s@)), r),
{
    let cs = chars_of(s);
    let a = trim_start_bound(&cs, 0, cs.len());
    let b = trim_end_bound(&cs, a, cs.len());
    assert(cs@.subrange(0, cs@.len() as int) =~= cs@);
    let trimmed = string_of(&slice_chars(&cs, a, b));
    let lowered = lowercase(trimmed.as_str());
    parse_pages_lowered(lowered.as_str())
}

/// The separator named by an already lower-cased option value.
pub open spec fn separator_spec(t: Seq<char>) -> PageSeparatorKind {
    if t == "none"@ {
        PageSeparatorKind::Blank
    } else if t == "hr"@ || t == "---"@ {
        PageSeparatorKind::HorizontalRule
    } else if t == "comment"@ {
        PageSeparatorKind::Comment
    } else {
        PageSeparatorKind::Custom
    }
}

/// The kind of a [`PageSeparator`], without its text.
pub enum PageSeparatorKind {
    Blank,
    HorizontalRule,
    Comment,
    Custom,
}

/// The kind of a separator.
pub open spec fn separator_kind(s: PageSeparator) -> PageSeparatorKind {
    match s {
        PageSeparator::Blank => PageSeparatorKind::Blank,
        PageSeparator::HorizontalRule => PageSeparatorKind::HorizontalRule,
        PageSeparator::Comment => PageSeparatorKind::Comment,
        PageSeparator::Custom(_) => PageSeparatorKind::Custom,
    }
}

/// Reads a separator from a lower-cased option value: `none`, `hr` or
/// `---`, `comment`, or any other text used as it is.
pub fn parse_separator_lowered(t: &str) -> (r: PageSeparator)
    ensures
        separator_kind(r) == separator_spec(t@),
        r matches PageSeparator::Custom(c) ==> c@ == t@,
{
    if crate::text::str_eq(t, "none") {
        PageSeparator::Blank
    } else if crate::text::str_eq(t, "hr") || crate::text::str_eq(t, "---") {
        PageSeparator::HorizontalRule
    } else if crate::text::str_eq(t, "comment") {
        PageSeparator::Comment
    } else {
        PageSeparator::Custom(t.to_owned())
    }
}

/// Reads the `--separator` option, lower-cased first.
pub fn parse_separator(s: &str) -> (r: PageSeparator)
    ensures
        separator_kind(r) == separator_spec(lower_of(s@)),
        r matches PageSeparator::Custom(c) ==> c@ == lower_of(s@),
{
    let lowered = lowercase(s);
    parse_separator_lowered(lowered.as_str())
}

/// Splits `s` at every `c`.
fn split_exec(s: &Vec<char>, c: char) -> (r: Vec<Vec<char>>)
    ensures
        views(r@) == split_on(s@, c),
{
    let mut done: Vec<Vec<char>> = Vec::new();
    let mut cur: Vec<char> = Vec::new();
    let mut i: usize = 0;
    assert(s@.subrange(0, 0) =~= Seq::<char>::empty());
    assert(views(done@).push(cur@) =~= split_on(s@.subrange(0, 0), c));
    while i < s.len()
        invariant
            i <= s.len(),
            views(done@).push(cur@) == split_on(s@.subrange(0, i as int), c),
        decreases s.len() - i,
    {
        let x = s[i];
        let ghost old_done = views(done@);
        let ghost old_cur = cur@;
        assert(s@.subrange(0, i + 1).drop_last() =~= s@.subrange(0, i as int));
        if x == c {
            let finished = cur;
            done.push(finished);
            cur = Vec::new();
            assert(views(done@) =~= old_done.push(old_cur));
        } else {
            cur.push(x);
            assert(views(done@) =~= old_done);
        }
        i += 1;
        assert(views(done@).push(cur@) =~= split_on(s@.subrange(0, i as int), c));
    }
    assert(s@.subrange(0, s.len() as int) =~= s@);
    let ghost old_done = views(done@);
    done.push(cur);
    assert(views(done@) =~= old_done.push(cur@));
    done
}

} // verus!
