//! Decisions of the page pipeline: retries, per-page results, the format
//! context of sequential mode, and the producer's walk over the selection.
use vstd::prelude::*;
use vstd::arithmetic::power2::{lemma2_to64, lemma_pow2_unfold, pow2};
use crate::assemble::cap_u64;
use crate::config::strictly_increasing;
use crate::error::PageError;
use crate::output::PageResult;
use crate::postprocess::{clean_markdown, clean_spec};

verus! {

// ── Retries ──────────────────────────────────────────────────────────────

/// The wait before retry `attempt` (from one): `initial × 2^(attempt − 1)`
/// milliseconds, capped at the largest `u64`.
pub open spec fn backoff_spec(initial: u64, attempt: nat) -> u64 {
    cap_u64((initial * pow2((attempt - 1) as nat)) as nat)
}

/// The wait in milliseconds before retry `attempt` (from one).
pub fn backoff_delay_ms(initial_ms: u64, attempt: u32) -> (r: u64)
    requires
        attempt >= 1,
    ensures
        r == backoff_spec(initial_ms, attempt as nat),
{
    let mut d: u64 = initial_ms;
    let mut k: u32 = 0;
    assert(pow2(0) == 1) by {
        lemma2_to64();
    }
    while k < attempt - 1
        invariant
            k <= attempt - 1,
            d == cap_u64((initial_ms * pow2(k as nat)) as nat),
        decreases attempt - 1 - k,
    {
        proof {
            lemma_pow2_unfold((k + 1) as nat);
            assert(initial_ms * pow2((k + 1) as nat) == 2 * (initial_ms * pow2(k as nat))) by (
            nonlinear_arith)
                requires
                    pow2((k + 1) as nat) == 2 * pow2(k as nat),
            ;
        }
        d = if d > u64::MAX / 2 {
            u64::MAX
        } else {
            d * 2
        };
        k += 1;
    }
    d
}

/// After attempt `failed_attempt` (from zero) failed: the wait before the next
/// attempt, or `None` once all `max_retries` retries are used.
pub fn next_retry_delay(failed_attempt: u32, max_retries: u32, initial_backoff_ms: u64) -> (r:
    Option<u64>)
    ensures
        r is Some <==> failed_attempt < max_retries,
        r matches Some(d) ==> d == backoff_spec(initial_backoff_ms, failed_attempt as nat + 1),
{
    if failed_attempt < max_retries {
        Some(backoff_delay_ms(initial_backoff_ms, failed_attempt + 1))
    } else {
        None
    }
}

/// A retry count as stored in a result: capped at 255.
pub open spec fn retries_cap(n: u32) -> u8 {
    if n > 255 {
        255
    } else {
        n as u8
    }
}

fn cap_retries(n: u32) -> (r: u8)
    ensures
        r == retries_cap(n),
{
    if n > 255 {
        255
    } else {
        n as u8
    }
}

/// The result of a page whose attempt `attempt` (from zero) succeeded.
pub fn success_result(
    page_num: usize,
    markdown: String,
    input_tokens: usize,
    output_tokens: usize,
    duration_ms: u64,
    attempt: u32,
) -> (r: PageResult)
    ensures
        r.page_num == page_num,
        r.markdown@ == markdown@,
        r.input_tokens == input_tokens,
        r.output_tokens == output_tokens,
        r.duration_ms == duration_ms,
        r.retries == retries_cap(attempt),
        r.error is None,
{
    PageResult {
        page_num,
        markdown,
        input_tokens,
        output_tokens,
        duration_ms,
        retries: cap_retries(attempt),
        error: None,
    }
}

/// The description kept when every attempt failed: the last error, or
/// `"Unknown error"` when there was none.
pub open spec fn failure_detail(last_error: Option<String>) -> Seq<char> {
    match last_error {
        Some(e) => e@,
        None => "Unknown error"@,
    }
}

/// The result of a page whose attempts all failed: no Markdown, no tokens,
/// and an `LlmFailed` error naming the retries and the last failure.
pub fn exhausted_result(page_num: usize, max_retries: u32, last_error: Option<String>, duration_ms: u64) -> (r:
    PageResult)
    ensures
        r.page_num == page_num,
        r.markdown@.len() == 0,
        r.input_tokens == 0,
        r.output_tokens == 0,
        r.duration_ms == duration_ms,
        r.retries == retries_cap(max_retries),
        r.error matches Some(PageError::LlmFailed { page, retries, detail }) && page == page_num
            && retries == r.retries && detail@ == failure_detail(last_error),
{
    let retries = cap_retries(max_retries);
    let detail = match last_error {
        Some(e) => e,
        None => "Unknown error".to_owned(),
    };
    PageResult {
        page_num,
        markdown: String::new(),
        input_tokens: 0,
        output_tokens: 0,
        duration_ms,
        retries,
        error: Some(PageError::LlmFailed { page: page_num, retries, detail }),
    }
}

// ── Sequential mode ──────────────────────────────────────────────────────

/// The Markdown handed to the next page in sequential mode: that of the last
/// successful page, cleaned.
pub struct SequentialContext {
    prior: Option<String>,
}

impl SequentialContext {
    /// The context text, if a page has succeeded yet.
    pub closed spec fn prior_spec(&self) -> Option<Seq<char>> {
        match self.prior {
            Some(s) => Some(s@),
            None => None,
        }
    }

    /// A context before any page.
    pub fn new() -> (r: Self)
        ensures
            r.prior_spec() is None,
    {
        SequentialContext { prior: None }
    }

    /// The Markdown of the last successful page, cleaned.
    pub fn prior_markdown(&self) -> (r: Option<String>)
        ensures
            r is Some <==> self.prior_spec() is Some,
            r matches Some(s) ==> self.prior_spec() == Some(s@),
    {
        match &self.prior {
            Some(s) => Some(s.as_str().to_owned()),
            None => None,
        }
    }

    /// Takes a page result into account: a success becomes the new context,
    /// a failure leaves the context as it was.
    pub fn record(&mut self, result: &PageResult)
        ensures
            result.error is None ==> final(self).prior_spec() == Some(clean_spec(result.markdown@)),
            result.error is Some ==> final(self).prior_spec() == old(self).prior_spec(),
    {
        if result.error.is_none() {
            self.prior = Some(clean_markdown(result.markdown.as_str()));
        }
    }
}

// ── Producer ─────────────────────────────────────────────────────────────

/// `x` comes after the last page handed out (every page does before the first).
pub open spec fn after_last(last: Option<usize>, x: usize) -> bool {
    match last {
        Some(v) => x > v,
        None => true,
    }
}

/// Walks the selected pages in order for rendering, skipping those past the
/// end of the document, until the walk ends or the consumer goes away.
pub struct Producer {
    plan: Vec<usize>,
    pos: usize,
    page_count: usize,
    stopped: bool,
    last: Option<usize>,
}

impl Producer {
    /// The producer's invariant: every page still ahead comes after the last
    /// one handed out, and every page behind was handed out already or lies
    /// past the end of the document.
    pub closed spec fn wf(&self) -> bool {
        &&& self.pos <= self.plan.len()
        &&& strictly_increasing(self.plan@)
        &&& (forall|j: int|
            self.pos <= j < self.plan.len() ==> after_last(self.last, #[trigger] self.plan@[j]))
        &&& (forall|j: int|
            0 <= j < self.pos ==> #[trigger] self.plan@[j] >= self.page_count || !after_last(
                self.last,
                self.plan@[j],
            ))
    }

    /// The pages the producer walks.
    pub closed spec fn plan_spec(&self) -> Seq<usize> {
        self.plan@
    }

    /// The last page handed out, if any.
    pub closed spec fn last_spec(&self) -> Option<usize> {
        self.last
    }

    /// The consumer went away.
    pub closed spec fn stopped_spec(&self) -> bool {
        self.stopped
    }

    /// The number of pages of the document.
    pub closed spec fn page_count_spec(&self) -> usize {
        self.page_count
    }

    /// A producer over `selected` (strictly increasing 0-based positions) for
    /// a document of `page_count` pages.
    pub fn new(selected: Vec<usize>, page_count: usize) -> (r: Self)
        requires
            strictly_increasing(selected@),
        ensures
            r.wf(),
            r.plan_spec() == selected@,
            r.last_spec() is None,
            !r.stopped_spec(),
            r.page_count_spec() == page_count,
    {
        Producer { plan: selected, pos: 0, page_count, stopped: false, last: None }
    }

    /// The next page to render: the smallest selected page inside the
    /// document that comes after the last one handed out; `None` only once no
    /// such page is left or the consumer went away.
    pub fn next_page(&mut self) -> (r: Option<usize>)
        requires
            old(self).wf(),
        ensures
            final(self).wf(),
            final(self).plan_spec() == old(self).plan_spec(),
            final(self).stopped_spec() == old(self).stopped_spec(),
            final(self).page_count_spec() == old(self).page_count_spec(),
            old(self).stopped_spec() ==> r is None,
            r matches Some(i) ==> {
                &&& i < old(self).page_count_spec()
                &&& old(self).plan_spec().contains(i)
                &&& after_last(old(self).last_spec(), i)
                &&& forall|j: int|
                    0 <= j < old(self).plan_spec().len() && after_last(
                        old(self).last_spec(),
                        #[trigger] old(self).plan_spec()[j],
                    ) && old(self).plan_spec()[j] < old(self).page_count_spec() ==> i
                        <= old(self).plan_spec()[j]
                &&& final(self).last_spec() == Some(i)
            },
            r is None ==> final(self).last_spec() == old(self).last_spec() && (old(
                self,
            ).stopped_spec() || forall|j: int|
                0 <= j < old(self).plan_spec().len() && after_last(
                    old(self).last_spec(),
                    #[trigger] old(self).plan_spec()[j],
                ) ==> old(self).plan_spec()[j] >= old(self).page_count_spec()),
    {
        if self.stopped {
            return None;
        }
        while self.pos < self.plan.len() && self.plan[self.pos] >= self.page_count
            invariant
                self.wf(),
                self.plan@ == old(self).plan@,
                self.last == old(self).last,
                self.stopped == old(self).stopped,
                self.page_count == old(self).page_count,
            decreases self.plan.len() - self.pos,
        {
            self.pos = self.pos + 1;
        }
        if self.pos < self.plan.len() {
            let i = self.plan[self.pos];
            let ghost p = self.pos as int;
            let ghost old_last = self.last;
            assert forall|j: int|
                0 <= j < self.plan@.len() && after_last(old_last, #[trigger] self.plan@[j])
                    && self.plan@[j] < self.page_count implies i <= self.plan@[j] by {
                if j > p {
                    assert(self.plan@[p] < self.plan@[j]);
                }
            }
            self.pos = self.pos + 1;
            self.last = Some(i);
            assert forall|j: int| 0 <= j < self.pos implies #[trigger] self.plan@[j]
                >= self.page_count || !after_last(self.last, self.plan@[j]) by {
                if j < p {
                    assert(self.plan@[j] < self.plan@[p]);
                }
            }
            assert(forall|j: int| self.pos <= j < self.plan.len() ==> self.plan@[p] < #[trigger] self.plan@[j]);
            assert(self.plan@[p] == i);
            Some(i)
        } else {
            None
        }
    }

    /// The consumer went away: no further page is handed out.
    pub fn stop(&mut self)
        requires
            old(self).wf(),
        ensures
            final(self).wf(),
            final(self).stopped_spec(),
            final(self).plan_spec() == old(self).plan_spec(),
            final(self).last_spec() == old(self).last_spec(),
            final(self).page_count_spec() == old(self).page_count_spec(),
    {
        self.stopped = true;
    }
}

} // verus!
