//! The decisions of a conversion: which pages to convert, and how the page
//! results become the final output or a fatal error.
use vstd::prelude::*;
use crate::assemble::{
    RunTimings, assemble_document, by_page, clean_pages, cleaned, compute_stats,
    count_failed, count_ok, document_spec, first_error, insert_by_page, lemma_by_page_ascending,
    sort_by_page, stats_spec,
};
use crate::config::{PageSelection, PageSeparator};
use crate::error::Pdf2MdError;
use crate::output::{ConversionOutput, DocumentMetadata, PageResult, PageView, page_views};
use crate::text::str_eq;

verus! {

/// The selection picks no page of a document with `total` pages.
pub open spec fn selects_nothing(sel: PageSelection, total: nat) -> bool {
    forall|i: int| !#[trigger] sel.selects(total, i)
}

/// The 0-based positions to convert, or `PageOutOfRange` when the selection
/// picks no page of the document.
pub fn select_pages(selection: &PageSelection, total_pages: usize) -> (r: Result<
    Vec<usize>,
    Pdf2MdError,
>)
    ensures
        r is Err <==> selects_nothing(*selection, total_pages as nat),
        r matches Err(e) ==> e == (Pdf2MdError::PageOutOfRange { page: 0, total: total_pages }),
        r matches Ok(v) ==> v.len() > 0 && crate::config::strictly_increasing(v@) && (forall|k: int|
            0 <= k < v.len() ==> selection.selects(total_pages as nat, #[trigger] v@[k] as int))
            && (forall|i: int| #[trigger]
            selection.selects(total_pages as nat, i) ==> v@.contains(i as usize)),
{
    let v = selection.to_indices(total_pages);
    if v.len() == 0 {
        assert forall|i: int| !#[trigger] selection.selects(total_pages as nat, i) by {
            if selection.selects(total_pages as nat, i) {
                assert(v@.contains(i as usize));
            }
        }
        Err(Pdf2MdError::PageOutOfRange { page: 0, total: total_pages })
    } else {
        assert(selection.selects(total_pages as nat, v@[0] as int));
        Ok(v)
    }
}

/// A page past the end of the document selects nothing.
pub proof fn lemma_single_out_of_range(n: usize, total: nat)
    requires
        n > total,
    ensures
        selects_nothing(PageSelection::Single(n), total),
{
}

/// A range reaching past the end is clipped to the last page, and a range
/// starting past the end selects nothing.
pub proof fn lemma_range_clipping(lo: usize, hi: usize, total: usize)
    ensures
        hi > total ==> forall|i: int| #[trigger]
            PageSelection::Range(lo, hi).selects(total as nat, i) <==> PageSelection::Range(
                lo,
                total,
            ).selects(total as nat, i),
        lo > total ==> selects_nothing(PageSelection::Range(lo, hi), total as nat),
{
}

/// A document without pages selects nothing, whatever the selection.
pub proof fn lemma_empty_document(sel: PageSelection)
    ensures
        selects_nothing(sel, 0),
{
}

proof fn lemma_insert_counts(s: Seq<PageView>, x: PageView)
    ensures
        count_ok(insert_by_page(s, x)) == count_ok(s) + if x.error is None {
            1nat
        } else {
            0nat
        },
        count_failed(insert_by_page(s, x)) == count_failed(s) + if x.error is Some {
            1nat
        } else {
            0nat
        },
    decreases s.len(),
{
    if s.len() > 0 && s.last().page_num > x.page_num {
        lemma_insert_counts(s.drop_last(), x);
        assert(insert_by_page(s.drop_last(), x).push(s.last()).drop_last() =~= insert_by_page(
            s.drop_last(),
            x,
        ));
    } else {
        assert(s.push(x).drop_last() =~= s);
    }
}

/// Ordering by page number keeps the number of successes and failures.
pub proof fn lemma_by_page_counts(s: Seq<PageView>)
    ensures
        count_ok(by_page(s)) == count_ok(s),
        count_failed(by_page(s)) == count_failed(s),
    decreases s.len(),
{
    if s.len() > 0 {
        lemma_by_page_counts(s.drop_last());
        lemma_insert_counts(by_page(s.drop_last()), s.last());
    }
}

/// Cleaning Markdown keeps the number of successes and failures.
pub proof fn lemma_cleaned_counts(s: Seq<PageView>)
    ensures
        count_ok(cleaned(s)) == count_ok(s),
        count_failed(cleaned(s)) == count_failed(s),
        cleaned(s).len() == s.len(),
    decreases s.len(),
{
    if s.len() > 0 {
        lemma_cleaned_counts(s.drop_last());
        assert(cleaned(s).drop_last() =~= cleaned(s.drop_last()));
    }
}

/// Successes and failures together are all the results.
pub proof fn lemma_counts_total(s: Seq<PageView>)
    ensures
        count_ok(s) + count_failed(s) == s.len(),
    decreases s.len(),
{
    if s.len() > 0 {
        lemma_counts_total(s.drop_last());
    }
}

/// The page results of a conversion as they end up in its output: cleaned,
/// then in page order.
pub open spec fn final_pages(results: Seq<PageResult>) -> Seq<PageView> {
    by_page(cleaned(page_views(results)))
}

/// The message carried by `AllPagesFailed` for these results.
pub open spec fn first_error_text(pages: Seq<PageView>) -> Seq<char> {
    match first_error(pages) {
        Some(e) => e.message_spec(),
        None => "Unknown error"@,
    }
}

fn first_error_message(pages: &Vec<PageResult>) -> (r: String)
    ensures
        r@ == first_error_text(page_views(pages@)),
{
    let ghost all = page_views(pages@);
    let mut i: usize = 0;
    assert(all.subrange(0, all.len() as int) =~= all);
    while i < pages.len()
        invariant
            i <= pages.len(),
            all == page_views(pages@),
            first_error(all) == first_error(all.subrange(i as int, all.len() as int)),
        decreases pages.len() - i,
    {
        let ghost rest = all.subrange(i as int, all.len() as int);
        assert(rest.drop_first() =~= all.subrange(i + 1, all.len() as int));
        match &pages[i].error {
            Some(e) => {
                return e.message();
            },
            None => {},
        }
        i += 1;
    }
    "Unknown error".to_owned()
}

/// Page numbers strictly increase along `s`.
pub open spec fn strictly_ascending_pages(s: Seq<PageView>) -> bool {
    forall|a: int, b: int| 0 <= a < b < s.len() ==> s[a].page_num < s[b].page_num
}

/// Every result is for a selected page: its number less one is a selected
/// 0-based position.
pub open spec fn from_selection(s: Seq<PageView>, selected: Seq<usize>) -> bool {
    forall|k: int|
        0 <= k < s.len() ==> 1 <= #[trigger] s[k].page_num && selected.contains(
            (s[k].page_num - 1) as usize,
        )
}

/// The results are one per page, in strictly ascending page order, and each
/// for a selected page.
pub open spec fn matches_selection(s: Seq<PageView>, selected: Seq<usize>) -> bool {
    strictly_ascending_pages(s) && from_selection(s, selected)
}

fn contains_usize(v: &Vec<usize>, x: usize) -> (r: bool)
    ensures
        r == v@.contains(x),
{
    let mut i: usize = 0;
    while i < v.len()
        invariant
            i <= v.len(),
            forall|j: int| 0 <= j < i ==> v@[j] != x,
        decreases v.len() - i,
    {
        if v[i] == x {
            return true;
        }
        i += 1;
    }
    false
}

fn check_selection(pages: &Vec<PageResult>, selected: &Vec<usize>) -> (r: bool)
    requires
        crate::assemble::ascending_pages(page_views(pages@)),
    ensures
        r == matches_selection(page_views(pages@), selected@),
{
    let ghost s = page_views(pages@);
    let mut k: usize = 0;
    while k < pages.len()
        invariant
            k <= pages.len(),
            s == page_views(pages@),
            crate::assemble::ascending_pages(s),
            forall|m: int| 0 < m < k ==> s[m - 1].page_num < #[trigger] s[m].page_num,
            forall|m: int|
                0 <= m < k ==> 1 <= #[trigger] s[m].page_num && selected@.contains(
                    (s[m].page_num - 1) as usize,
                ),
        decreases pages.len() - k,
    {
        assert(s[k as int] == pages@[k as int]@);
        if k > 0 && pages[k - 1].page_num >= pages[k].page_num {
            assert(s[k - 1] == pages@[k - 1]@);
            return false;
        }
        if pages[k].page_num < 1 || !contains_usize(selected, pages[k].page_num - 1) {
            return false;
        }
        k += 1;
    }
    assert forall|a: int, b: int| 0 <= a < b < s.len() implies s[a].page_num < s[b].page_num by {
        assert(s[a].page_num <= s[b - 1].page_num);
    }
    true
}

/// A selection-matching run has no more results than selected pages.
pub proof fn lemma_selection_bound(s: Seq<PageView>, selected: Seq<usize>)
    requires
        matches_selection(s, selected),
    ensures
        s.len() <= selected.len(),
{
    let q = s.map_values(|p: PageView| (p.page_num - 1) as usize);
    assert(q.no_duplicates()) by {
        assert forall|i: int, j: int| 0 <= i < q.len() && 0 <= j < q.len() && i != j implies q[i]
            != q[j] by {
            assert(1 <= s[i].page_num && 1 <= s[j].page_num);
            if i < j {
                assert(s[i].page_num < s[j].page_num);
            } else {
                assert(s[j].page_num < s[i].page_num);
            }
        }
    }
    q.unique_seq_to_set();
    assert(q.to_set().subset_of(selected.to_set())) by {
        assert forall|x: usize| q.to_set().contains(x) implies selected.to_set().contains(x) by {
            let i = choose|i: int| 0 <= i < q.len() && q[i] == x;
            assert(1 <= s[i].page_num);
        }
    }
    vstd::seq_lib::seq_to_set_is_finite(selected);
    vstd::set_lib::lemma_len_subset(q.to_set(), selected.to_set());
    selected.lemma_cardinality_of_set();
}

/// Turns the page results into the output: cleans each successful page's
/// Markdown, orders the results by page, assembles the document and computes
/// the statistics. Fails with `Internal` when the results are not one per
/// page for pages of the selection, and with `AllPagesFailed` when no page
/// succeeded.
pub fn finish_conversion(
    results: Vec<PageResult>,
    selected: &Vec<usize>,
    metadata: DocumentMetadata,
    max_retries: u32,
    include_metadata: bool,
    separator: &PageSeparator,
    timings: RunTimings,
) -> (r: Result<ConversionOutput, Pdf2MdError>)
    ensures
        r is Ok <==> (matches_selection(final_pages(results@), selected@) && count_ok(
            page_views(results@),
        ) > 0),
        r matches Ok(out) ==> {
            &&& page_views(out.pages@) == final_pages(results@)
            &&& strictly_ascending_pages(page_views(out.pages@))
            &&& from_selection(page_views(out.pages@), selected@)
            &&& out.markdown@ == document_spec(
                final_pages(results@),
                include_metadata,
                *separator,
                metadata,
            )
            &&& out.stats == stats_spec(
                final_pages(results@),
                selected.len() as nat,
                metadata.page_count,
                timings,
            )
            &&& out.stats.processed_pages + out.stats.failed_pages + out.stats.skipped_pages
                == selected.len()
            &&& out.metadata == metadata
        },
        r matches Err(e) ==> {
            ||| (!matches_selection(final_pages(results@), selected@) && e is Internal)
            ||| (matches_selection(final_pages(results@), selected@) && e == (
            Pdf2MdError::AllPagesFailed {
                total: results.len(),
                retries: max_retries,
                first_error: e->first_error,
            }) && e->first_error@ == first_error_text(final_pages(results@)))
        },
{
    let ghost views = page_views(results@);
    let n = results.len();
    let cleaned_results = clean_pages(results);
    let pages = sort_by_page(cleaned_results);
    proof {
        lemma_cleaned_counts(views);
        lemma_by_page_counts(cleaned(views));
        lemma_by_page_ascending(cleaned(views));
        lemma_counts_total(by_page(cleaned(views)));
    }
    if !check_selection(&pages, selected) {
        return Err(Pdf2MdError::Internal("page results do not match the selected pages".to_owned()));
    }
    proof {
        lemma_selection_bound(page_views(pages@), selected@);
    }
    let markdown = assemble_document(&pages, include_metadata, separator, &metadata);
    let stats = compute_stats(&pages, selected.len(), metadata.page_count, timings);
    if stats.processed_pages == 0 {
        let first = first_error_message(&pages);
        return Err(Pdf2MdError::AllPagesFailed { total: n, retries: max_retries, first_error: first });
    }
    Ok(ConversionOutput { markdown, pages, metadata, stats })
}

/// Every selected page is accounted for: converted, failed or skipped, when
/// the results are one per page for pages of the selection.
pub proof fn lemma_page_accounting(
    results: Seq<PageResult>,
    selected: Seq<usize>,
    total_pages: usize,
    timings: RunTimings,
)
    requires
        matches_selection(final_pages(results), selected),
        selected.len() <= usize::MAX,
    ensures
        ({
            let st = stats_spec(final_pages(results), selected.len(), total_pages, timings);
            st.processed_pages + st.failed_pages + st.skipped_pages == selected.len()
        }),
{
    let views = page_views(results);
    lemma_cleaned_counts(views);
    lemma_by_page_ascending(cleaned(views));
    lemma_counts_total(final_pages(results));
    lemma_selection_bound(final_pages(results), selected);
}

/// The vision-capable model used for a provider when none is configured.
pub open spec fn default_model_spec(name: Seq<char>) -> Seq<char> {
    if name == "mistral"@ || name == "mistral-ai"@ || name == "mistralai"@ {
        "pixtral-12b-2409"@
    } else if name == "ollama"@ || name == "lmstudio"@ || name == "lm-studio"@ || name
        == "lm_studio"@ {
        "llava"@
    } else {
        "gpt-4.1-nano"@
    }
}

/// The default vision model for a named provider.
pub fn default_vision_model_for_provider(provider_name: &str) -> (r: &'static str)
    ensures
        r@ == default_model_spec(provider_name@),
{
    if str_eq(provider_name, "mistral") || str_eq(provider_name, "mistral-ai") || str_eq(
        provider_name,
        "mistralai",
    ) {
        "pixtral-12b-2409"
    } else if str_eq(provider_name, "ollama") || str_eq(provider_name, "lmstudio") || str_eq(
        provider_name,
        "lm-studio",
    ) || str_eq(provider_name, "lm_studio") {
        "llava"
    } else {
        "gpt-4.1-nano"
    }
}

/// Where the model provider of a conversion comes from.
#[derive(Debug)]
pub enum ProviderChoice {
    /// The handle the caller supplied.
    Supplied,
    /// A provider created by name with this model.
    Named { provider: String, model: String },
    /// Whatever the environment's API keys point to.
    AutoDetect,
}

/// A present, non-empty text.
pub open spec fn non_empty(v: Option<String>) -> bool {
    v matches Some(s) && s@.len() > 0
}

/// The configured model, else `fallback`.
pub open spec fn model_or(model: Option<String>, fallback: Seq<char>) -> Seq<char> {
    match model {
        Some(m) => m@,
        None => fallback,
    }
}

fn text_non_empty(v: &Option<String>) -> (r: bool)
    ensures
        r == non_empty(*v),
{
    match v {
        Some(s) => s.as_str().unicode_len() > 0,
        None => false,
    }
}

fn model_or_exec(model: &Option<String>, fallback: &str) -> (r: String)
    ensures
        r@ == model_or(*model, fallback@),
{
    match model {
        Some(m) => m.as_str().to_owned(),
        None => fallback.to_owned(),
    }
}

/// Chooses the provider, from the most specific setting to the least: a
/// supplied handle; a configured provider name (with its default vision
/// model unless a model is configured); the provider and model named by the
/// environment when both are set; OpenAI when its key is set; Mistral when
/// its key is set; otherwise auto-detection.
pub fn choose_provider(
    has_supplied: bool,
    provider_name: &Option<String>,
    model: &Option<String>,
    env_provider: &Option<String>,
    env_model: &Option<String>,
    openai_key: &Option<String>,
    mistral_key: &Option<String>,
) -> (r: ProviderChoice)
    ensures
        has_supplied ==> r is Supplied,
        !has_supplied && provider_name is Some ==> (r matches ProviderChoice::Named {
            provider,
            model: m,
        } && provider@ == provider_name->0@ && m@ == model_or(
            *model,
            default_model_spec(provider_name->0@),
        )),
        !has_supplied && provider_name is None && non_empty(*env_provider) && non_empty(
            *env_model,
        ) ==> (r matches ProviderChoice::Named { provider, model: m } && provider@
            == env_provider->0@ && m@ == env_model->0@),
        !has_supplied && provider_name is None && !(non_empty(*env_provider) && non_empty(
            *env_model,
        )) && non_empty(*openai_key) ==> (r matches ProviderChoice::Named { provider, model: m }
            && provider@ == "openai"@ && m@ == model_or(*model, "gpt-4.1-nano"@)),
        !has_supplied && provider_name is None && !(non_empty(*env_provider) && non_empty(
            *env_model,
        )) && !non_empty(*openai_key) && non_empty(*mistral_key) ==> (r matches ProviderChoice::Named {
            provider,
            model: m,
        } && provider@ == "mistral"@ && m@ == model_or(*model, "pixtral-12b-2409"@)),
        !has_supplied && provider_name is None && !(non_empty(*env_provider) && non_empty(
            *env_model,
        )) && !non_empty(*openai_key) && !non_empty(*mistral_key) ==> r is AutoDetect,
{
    if has_supplied {
        return ProviderChoice::Supplied;
    }
    match provider_name {
        Some(name) => {
            let m = model_or_exec(model, default_vision_model_for_provider(name.as_str()));
            return ProviderChoice::Named { provider: name.as_str().to_owned(), model: m };
        },
        None => {},
    }
    if text_non_empty(env_provider) && text_non_empty(env_model) {
        match (env_provider, env_model) {
            (Some(p), Some(m)) => {
                return ProviderChoice::Named {
                    provider: p.as_str().to_owned(),
                    model: m.as_str().to_owned(),
                };
            },
            _ => {},
        }
    }
    if text_non_empty(openai_key) {
        return ProviderChoice::Named {
            provider: "openai".to_owned(),
            model: model_or_exec(model, "gpt-4.1-nano"),
        };
    }
    if text_non_empty(mistral_key) {
        return ProviderChoice::Named {
            provider: "mistral".to_owned(),
            model: model_or_exec(model, "pixtral-12b-2409"),
        };
    }
    ProviderChoice::AutoDetect
}

} // verus!
