//! What the terminal report says about pages and about the whole run.
use vstd::prelude::*;
use crate::text::{chars_of, push_char, string_of};

verus! {

/// The longest error text shown on one line, in characters.
pub const MAX_ERROR_CHARS: usize = 80;

/// `m` when it fits on a line, else its first 79 characters and an ellipsis.
pub open spec fn shortened_spec(m: Seq<char>) -> Seq<char> {
    if m.len() > MAX_ERROR_CHARS {
        m.subrange(0, (MAX_ERROR_CHARS - 1) as int).push('\u{2026}')
    } else {
        m
    }
}

/// Shortens an error text to one line of at most 80 characters.
pub fn shorten_error(message: &str) -> (r: String)
    ensures
        r@ == shortened_spec(message@),
{
    let cs = chars_of(message);
    if cs.len() > MAX_ERROR_CHARS {
        let mut head: Vec<char> = Vec::new();
        let mut i: usize = 0;
        while i < MAX_ERROR_CHARS - 1
            invariant
                i <= MAX_ERROR_CHARS - 1,
                cs.len() > MAX_ERROR_CHARS,
                head@ == cs@.subrange(0, i as int),
            decreases MAX_ERROR_CHARS - 1 - i,
        {
            head.push(cs[i]);
            i += 1;
            assert(head@ =~= cs@.subrange(0, i as int));
        }
        let mut r = string_of(&head);
        push_char(&mut r, '\u{2026}');
        r
    } else {
        string_of(&cs)
    }
}

/// How a run ended, for the closing line of the report.
#[derive(Debug, Clone, Copy, PartialEq, Eq, Structural)]
pub enum RunSummary {
    /// Every selected page converted.
    AllConverted,
    /// Some pages failed; this many.
    Partial { failed: usize },
    /// No page converted.
    AllFailed,
}

/// Classifies a run of `total_pages` selected pages of which
/// `success_count` converted.
pub fn summarize_run(total_pages: usize, success_count: usize) -> (r: RunSummary)
    ensures
        success_count >= total_pages ==> r == RunSummary::AllConverted,
        success_count == 0 && total_pages > 0 ==> r == RunSummary::AllFailed,
        0 < success_count < total_pages ==> r == (RunSummary::Partial {
            failed: (total_pages - success_count) as usize,
        }),
{
    let failed: usize = if total_pages > success_count {
        total_pages - success_count
    } else {
        0
    };
    if failed == 0 {
        RunSummary::AllConverted
    } else if failed == total_pages {
        RunSummary::AllFailed
    } else {
        RunSummary::Partial { failed }
    }
}

/// `s` wrapped in the ANSI escape `code` and a reset.
pub open spec fn styled(code: Seq<char>, s: Seq<char>) -> Seq<char> {
    "\x1b["@ + code + "m"@ + s + "\x1b[0m"@
}

fn style(code: &str, s: &str) -> (r: String)
    ensures
        r@ == styled(code@, s@),
{
    let mut r = "\x1b[".to_owned();
    r.append(code);
    r.append("m");
    r.append(s);
    r.append("\x1b[0m");
    r
}

/// `s` in green.
pub fn green(s: &str) -> (r: String)
    ensures
        r@ == styled("32"@, s@),
{
    style("32", s)
}

/// `s` in red.
pub fn red(s: &str) -> (r: String)
    ensures
        r@ == styled("31"@, s@),
{
    style("31", s)
}

/// `s` dimmed.
pub fn dim(s: &str) -> (r: String)
    ensures
        r@ == styled("2"@, s@),
{
    style("2", s)
}

/// `s` in bold.
pub fn bold(s: &str) -> (r: String)
    ensures
        r@ == styled("1"@, s@),
{
    style("1", s)
}

/// `s` in cyan.
pub fn cyan(s: &str) -> (r: String)
    ensures
        r@ == styled("36"@, s@),
{
    style("36", s)
}

} // verus!
