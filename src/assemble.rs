//! Turning the per-page results into the final document and its statistics.
use vstd::prelude::*;
use crate::config::PageSeparator;
use crate::error::{PageError, Pdf2MdError};
use crate::output::{
    ConversionOutput, ConversionStats, DocumentMetadata, PageResult, PageView, page_views,
};
use crate::postprocess::{clean_markdown, clean_spec};
use crate::text::{decimal, usize_decimal};

verus! {

// ── Ordering by page number ──────────────────────────────────────────────

/// `s` with `x` placed after every element whose page number is not greater.
pub open spec fn insert_by_page(s: Seq<PageView>, x: PageView) -> Seq<PageView>
    decreases s.len(),
{
    if s.len() > 0 && s.last().page_num > x.page_num {
        insert_by_page(s.drop_last(), x).push(s.last())
    } else {
        s.push(x)
    }
}

/// The results in ascending page order; results with equal page numbers keep
/// their order of arrival.
pub open spec fn by_page(s: Seq<PageView>) -> Seq<PageView>
    decreases s.len(),
{
    if s.len() == 0 {
        Seq::<PageView>::empty()
    } else {
        insert_by_page(by_page(s.drop_last()), s.last())
    }
}

/// Page numbers never decrease along `s`.
pub open spec fn ascending_pages(s: Seq<PageView>) -> bool {
    forall|a: int, b: int| 0 <= a < b < s.len() ==> s[a].page_num <= s[b].page_num
}

proof fn lemma_insert_by_page(s: Seq<PageView>, x: PageView)
    requires
        ascending_pages(s),
    ensures
        ascending_pages(insert_by_page(s, x)),
        insert_by_page(s, x).len() == s.len() + 1,
        insert_by_page(s, x).len() > 0,
        insert_by_page(s, x).last().page_num == if s.len() > 0 && s.last().page_num
            > x.page_num {
            s.last().page_num
        } else {
            x.page_num
        },
    decreases s.len(),
{
    if s.len() > 0 && s.last().page_num > x.page_num {
        let t = s.drop_last();
        lemma_insert_by_page(t, x);
        let r = insert_by_page(t, x);
        assert forall|a: int, b: int| 0 <= a < b < r.push(s.last()).len() implies r.push(
            s.last(),
        )[a].page_num <= r.push(s.last())[b].page_num by {
            if b == r.len() {
                if a < r.len() - 1 {
                    assert(r[a].page_num <= r.last().page_num);
                }
                if t.len() > 0 && t.last().page_num > x.page_num {
                    assert(t.last().page_num <= s.last().page_num);
                }
            }
        }
    }
}

/// Ordering by page number gives ascending page numbers and keeps the count.
pub proof fn lemma_by_page_ascending(s: Seq<PageView>)
    ensures
        ascending_pages(by_page(s)),
        by_page(s).len() == s.len(),
    decreases s.len(),
{
    if s.len() > 0 {
        lemma_by_page_ascending(s.drop_last());
        lemma_insert_by_page(by_page(s.drop_last()), s.last());
    }
}

fn insert_by_page_exec(out: &mut Vec<PageResult>, x: PageResult)
    ensures
        page_views(final(out)@) == insert_by_page(page_views(old(out)@), x@),
{
    let ghost s = page_views(out@);
    let mut pos: usize = out.len();
    assert(s.subrange(0, pos as int) =~= s);
    assert(s.subrange(pos as int, s.len() as int) =~= Seq::<PageView>::empty());
    while pos > 0 && out[pos - 1].page_num > x.page_num
        invariant
            pos <= out.len(),
            s == page_views(out@),
            s == page_views(old(out)@),
            insert_by_page(s, x@) == insert_by_page(s.subrange(0, pos as int), x@) + s.subrange(
                pos as int,
                s.len() as int,
            ),
        decreases pos,
    {
        let ghost t = s.subrange(0, pos as int);
        assert(t.drop_last() =~= s.subrange(0, pos - 1));
        assert(t.last() == s[pos - 1]);
        assert(s.subrange(pos - 1, s.len() as int) =~= seq![s[pos - 1]] + s.subrange(
            pos as int,
            s.len() as int,
        ));
        assert(insert_by_page(t, x@) == insert_by_page(s.subrange(0, pos - 1), x@).push(s[pos - 1]));
        assert(insert_by_page(s, x@) =~= insert_by_page(s.subrange(0, pos - 1), x@)
            + s.subrange(pos - 1, s.len() as int));
        pos -= 1;
    }
    let ghost xv = x@;
    out.insert(pos, x);
    assert(page_views(out@) =~= s.subrange(0, pos as int).push(xv) + s.subrange(
        pos as int,
        s.len() as int,
    ));
}

/// Puts the results in ascending page order, keeping the arrival order of
/// results with equal page numbers.
pub fn sort_by_page(results: Vec<PageResult>) -> (r: Vec<PageResult>)
    ensures
        page_views(r@) == by_page(page_views(results@)),
        ascending_pages(page_views(r@)),
        r.len() == results.len(),
{
    let ghost all = page_views(results@);
    let mut rest = results;
    let mut out: Vec<PageResult> = Vec::new();
    let mut k: usize = 0;
    let n = rest.len();
    while rest.len() > 0
        invariant
            k + rest.len() == n,
            n == all.len(),
            page_views(rest@) == all.subrange(k as int, n as int),
            page_views(out@) == by_page(all.subrange(0, k as int)),
        decreases rest.len(),
    {
        let ghost before = rest@;
        let x = rest.remove(0);
        assert(page_views(before)[0] == x@);
        assert(page_views(before)[0] == all[k as int]);
        assert(page_views(rest@) =~= page_views(before).subrange(1, before.len() as int));
        assert(all.subrange(0, k + 1).drop_last() =~= all.subrange(0, k as int));
        insert_by_page_exec(&mut out, x);
        k += 1;
        assert(page_views(rest@) =~= all.subrange(k as int, n as int));
    }
    assert(all.subrange(0, n as int) =~= all);
    proof {
        lemma_by_page_ascending(all);
    }
    out
}

// ── Post-processing of successful pages ──────────────────────────────────

/// The result with its Markdown cleaned when it is a success.
pub open spec fn cleaned_view(v: PageView) -> PageView {
    if v.error is None {
        PageView { markdown: clean_spec(v.markdown), ..v }
    } else {
        v
    }
}

/// Every successful result with its Markdown cleaned.
pub open spec fn cleaned(s: Seq<PageView>) -> Seq<PageView> {
    s.map_values(|v: PageView| cleaned_view(v))
}

/// Cleans the Markdown of every successful result; failed results stay as they are.
pub fn clean_pages(results: Vec<PageResult>) -> (r: Vec<PageResult>)
    ensures
        page_views(r@) == cleaned(page_views(results@)),
{
    let ghost all = page_views(results@);
    let mut rest = results;
    let mut out: Vec<PageResult> = Vec::new();
    let n = rest.len();
    while rest.len() > 0
        invariant
            out.len() + rest.len() == n,
            n == all.len(),
            page_views(rest@) == all.subrange(out.len() as int, n as int),
            page_views(out@) == cleaned(all.subrange(0, out.len() as int)),
        decreases rest.len(),
    {
        let ghost k = out.len();
        let ghost before = rest@;
        let mut x = rest.remove(0);
        assert(page_views(before)[0] == x@);
        assert(page_views(before)[0] == all[k as int]);
        assert(page_views(rest@) =~= page_views(before).subrange(1, before.len() as int));
        let ghost xv = x@;
        if x.error.is_none() {
            x.markdown = clean_markdown(x.markdown.as_str());
        }
        assert(x@ == cleaned_view(xv));
        let ghost prev = page_views(out@);
        out.push(x);
        assert(page_views(out@) =~= prev.push(cleaned_view(xv)));
        assert(page_views(out@) =~= cleaned(all.subrange(0, out.len() as int)));
        assert(page_views(rest@) =~= all.subrange(out.len() as int, n as int));
    }
    assert(all.subrange(0, n as int) =~= all);
    out
}

// ── Assembly ─────────────────────────────────────────────────────────────

/// The successful results, in order.
pub open spec fn ok_pages(s: Seq<PageView>) -> Seq<PageView>
    decreases s.len(),
{
    if s.len() == 0 {
        s
    } else if s.last().error is None {
        ok_pages(s.drop_last()).push(s.last())
    } else {
        ok_pages(s.drop_last())
    }
}

/// The Markdown of `ok` joined, each page after the first preceded by the
/// separator rendered for its own page number.
pub open spec fn joined_pages(ok: Seq<PageView>, sep: PageSeparator) -> Seq<char>
    decreases ok.len(),
{
    if ok.len() == 0 {
        Seq::<char>::empty()
    } else if ok.len() == 1 {
        ok[0].markdown
    } else {
        joined_pages(ok.drop_last(), sep) + sep.render_spec(ok.last().page_num as nat)
            + ok.last().markdown
    }
}

/// `key: "value"` on its own line, or nothing when the value is absent.
pub open spec fn yaml_field(key: Seq<char>, v: Option<String>) -> Seq<char> {
    match v {
        Some(t) => key + ": \""@ + t@ + "\"\n"@,
        None => Seq::<char>::empty(),
    }
}

/// The YAML front-matter block describing `m`.
pub open spec fn front_matter_spec(m: DocumentMetadata) -> Seq<char> {
    "---\n"@ + yaml_field("title"@, m.title) + yaml_field("author"@, m.author) + yaml_field(
        "subject"@,
        m.subject,
    ) + yaml_field("creator"@, m.creator) + yaml_field("producer"@, m.producer) + "pages: "@
        + decimal(m.page_count as nat) + "\n"@ + (if m.pdf_version@.len() > 0 {
        "pdf_version: \""@ + m.pdf_version@ + "\"\n"@
    } else {
        Seq::<char>::empty()
    }) + "---\n\n"@
}

fn push_yaml_field(out: &mut String, key: &str, v: &Option<String>)
    ensures
        final(out)@ == old(out)@ + yaml_field(key@, *v),
{
    match v {
        Some(t) => {
            out.append(key);
            out.append(": \"");
            out.append(t.as_str());
            out.append("\"\n");
        },
        None => {},
    }
}

/// The YAML front-matter block (`---` fenced) describing the document.
pub fn format_yaml_front_matter(meta: &DocumentMetadata) -> (r: String)
    ensures
        r@ == front_matter_spec(*meta),
{
    let mut y = "---\n".to_owned();
    push_yaml_field(&mut y, "title", &meta.title);
    push_yaml_field(&mut y, "author", &meta.author);
    push_yaml_field(&mut y, "subject", &meta.subject);
    push_yaml_field(&mut y, "creator", &meta.creator);
    push_yaml_field(&mut y, "producer", &meta.producer);
    y.append("pages: ");
    y.append(usize_decimal(meta.page_count).as_str());
    y.append("\n");
    let ghost before = y@;
    if meta.pdf_version.as_str().unicode_len() > 0 {
        y.append("pdf_version: \"");
        y.append(meta.pdf_version.as_str());
        y.append("\"\n");
    }
    y.append("---\n\n");
    y
}

/// The document: optional front-matter, then the successful pages of `pages`
/// joined with separators.
pub open spec fn document_spec(
    pages: Seq<PageView>,
    include_metadata: bool,
    sep: PageSeparator,
    meta: DocumentMetadata,
) -> Seq<char> {
    (if include_metadata {
        front_matter_spec(meta)
    } else {
        Seq::<char>::empty()
    }) + joined_pages(ok_pages(pages), sep)
}

/// Assembles the document from results already in page order.
pub fn assemble_document(
    pages: &Vec<PageResult>,
    include_metadata: bool,
    separator: &PageSeparator,
    metadata: &DocumentMetadata,
) -> (r: String)
    ensures
        r@ == document_spec(page_views(pages@), include_metadata, *separator, *metadata),
{
    let ghost all = page_views(pages@);
    let mut out = if include_metadata {
        format_yaml_front_matter(metadata)
    } else {
        String::new()
    };
    let ghost front = out@;
    let mut count: usize = 0;
    let mut i: usize = 0;
    while i < pages.len()
        invariant
            i <= pages.len(),
            all == page_views(pages@),
            count == ok_pages(all.subrange(0, i as int)).len(),
            count <= i,
            out@ == front + joined_pages(ok_pages(all.subrange(0, i as int)), *separator),
        decreases pages.len() - i,
    {
        let ghost prev = ok_pages(all.subrange(0, i as int));
        assert(all.subrange(0, i + 1).drop_last() =~= all.subrange(0, i as int));
        assert(all.subrange(0, i + 1).last() == all[i as int]);
        if pages[i].error.is_none() {
            let ghost now = prev.push(all[i as int]);
            assert(now.drop_last() =~= prev);
            if count > 0 {
                out.append(separator.render(pages[i].page_num).as_str());
            }
            out.append(pages[i].markdown.as_str());
            count += 1;
        }
        i += 1;
    }
    assert(all.subrange(0, pages.len() as int) =~= all);
    out
}

// ── Statistics ───────────────────────────────────────────────────────────

/// How many results succeeded.
pub open spec fn count_ok(s: Seq<PageView>) -> nat
    decreases s.len(),
{
    if s.len() == 0 {
        0
    } else {
        count_ok(s.drop_last()) + if s.last().error is None {
            1nat
        } else {
            0nat
        }
    }
}

/// How many results carry an error.
pub open spec fn count_failed(s: Seq<PageView>) -> nat
    decreases s.len(),
{
    if s.len() == 0 {
        0
    } else {
        count_failed(s.drop_last()) + if s.last().error is Some {
            1nat
        } else {
            0nat
        }
    }
}

/// The summed input tokens (or, when `input` is false, output tokens) of `s`.
pub open spec fn token_sum(s: Seq<PageView>, input: bool) -> nat
    decreases s.len(),
{
    if s.len() == 0 {
        0
    } else {
        token_sum(s.drop_last(), input) + if input {
            s.last().input_tokens as nat
        } else {
            s.last().output_tokens as nat
        }
    }
}

/// `n` capped at the largest `u64`.
pub open spec fn cap_u64(n: nat) -> u64 {
    if n > u64::MAX {
        u64::MAX
    } else {
        n as u64
    }
}

/// The first error along `s`, if any.
pub open spec fn first_error(s: Seq<PageView>) -> Option<PageError>
    decreases s.len(),
{
    if s.len() == 0 {
        None
    } else if s[0].error is Some {
        s[0].error
    } else {
        first_error(s.drop_first())
    }
}

/// Timings measured around the pipeline, in milliseconds.
#[derive(Debug, Clone, Copy)]
pub struct RunTimings {
    /// From the start of the conversion to now.
    pub total_ms: u64,
    /// Summed render and encode time of the pages.
    pub render_ms: u64,
    /// Time spent in the page pipeline.
    pub pipeline_ms: u64,
}

/// The statistics of a conversion whose results are `pages`.
pub open spec fn stats_spec(
    pages: Seq<PageView>,
    selected_count: nat,
    total_pages: usize,
    timings: RunTimings,
) -> ConversionStats {
    ConversionStats {
        total_pages,
        processed_pages: count_ok(pages) as usize,
        failed_pages: count_failed(pages) as usize,
        skipped_pages: if selected_count >= pages.len() {
            (selected_count - pages.len()) as usize
        } else {
            0
        },
        total_input_tokens: cap_u64(token_sum(pages, true)),
        total_output_tokens: cap_u64(token_sum(pages, false)),
        total_duration_ms: timings.total_ms,
        render_duration_ms: timings.render_ms,
        llm_duration_ms: timings.pipeline_ms,
    }
}

/// Computes the statistics of a conversion.
pub fn compute_stats(
    pages: &Vec<PageResult>,
    selected_count: usize,
    total_pages: usize,
    timings: RunTimings,
) -> (r: ConversionStats)
    ensures
        r == stats_spec(page_views(pages@), selected_count as nat, total_pages, timings),
{
    let ghost all = page_views(pages@);
    let mut ok: usize = 0;
    let mut failed: usize = 0;
    let mut tin: u64 = 0;
    let mut tout: u64 = 0;
    let mut i: usize = 0;
    while i < pages.len()
        invariant
            i <= pages.len(),
            all == page_views(pages@),
            ok == count_ok(all.subrange(0, i as int)),
            failed == count_failed(all.subrange(0, i as int)),
            ok + failed == i,
            tin == cap_u64(token_sum(all.subrange(0, i as int), true)),
            tout == cap_u64(token_sum(all.subrange(0, i as int), false)),
        decreases pages.len() - i,
    {
        assert(all.subrange(0, i + 1).drop_last() =~= all.subrange(0, i as int));
        assert(all.subrange(0, i + 1).last() == all[i as int]);
        if pages[i].error.is_none() {
            ok += 1;
        } else {
            failed += 1;
        }
        tin = tin.saturating_add(pages[i].input_tokens as u64);
        tout = tout.saturating_add(pages[i].output_tokens as u64);
        i += 1;
    }
    assert(all.subrange(0, pages.len() as int) =~= all);
    let skipped: usize = if selected_count >= pages.len() {
        selected_count - pages.len()
    } else {
        0
    };
    ConversionStats {
        total_pages,
        processed_pages: ok,
        failed_pages: failed,
        skipped_pages: skipped,
        total_input_tokens: tin,
        total_output_tokens: tout,
        total_duration_ms: timings.total_ms,
        render_duration_ms: timings.render_ms,
        llm_duration_ms: timings.pipeline_ms,
    }
}

} // verus!
