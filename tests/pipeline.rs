use edgequake_pdf2md::error::PageError;
use edgequake_pdf2md::output::PageResult;
use edgequake_pdf2md::pipeline::{
    backoff_delay_ms, exhausted_result, next_retry_delay, success_result, Producer,
    SequentialContext,
};
use edgequake_pdf2md::progress::{page_event, PageEvent};
use edgequake_pdf2md::config::FidelityTier;
use edgequake_pdf2md::prompts::{
    context_message, maintain_format_context, system_prompt_for, DEFAULT_SYSTEM_PROMPT,
    TIER1_SYSTEM_PROMPT, TIER3_SYSTEM_PROMPT,
};

#[test]
fn backoff_doubles() {
    assert_eq!(backoff_delay_ms(500, 1), 500);
    assert_eq!(backoff_delay_ms(500, 2), 1000);
    assert_eq!(backoff_delay_ms(500, 3), 2000);
    assert_eq!(backoff_delay_ms(u64::MAX / 2 + 1, 2), u64::MAX);
}

#[test]
fn retries_stop_at_the_limit() {
    assert_eq!(next_retry_delay(0, 3, 500), Some(500));
    assert_eq!(next_retry_delay(2, 3, 500), Some(2000));
    assert_eq!(next_retry_delay(3, 3, 500), None);
    assert_eq!(next_retry_delay(0, 0, 500), None);
}

#[test]
fn page_results() {
    let ok = success_result(4, "# x".to_string(), 10, 20, 7, 2);
    assert_eq!(ok.page_num, 4);
    assert_eq!(ok.markdown, "# x");
    assert_eq!(ok.retries, 2);
    assert!(ok.error.is_none());
    let bad = exhausted_result(5, 3, Some("503".to_string()), 9);
    assert_eq!(bad.markdown, "");
    assert_eq!(bad.input_tokens, 0);
    assert_eq!(bad.retries, 3);
    assert_eq!(
        bad.error,
        Some(PageError::LlmFailed { page: 5, retries: 3, detail: "503".to_string() })
    );
    assert_eq!(success_result(1, String::new(), 0, 0, 0, 300).retries, 255);
    assert_eq!(exhausted_result(1, 1000, None, 0).retries, 255);
    let unknown = exhausted_result(1, 0, None, 0);
    assert_eq!(
        unknown.error,
        Some(PageError::LlmFailed { page: 1, retries: 0, detail: "Unknown error".to_string() })
    );
}

fn result(page_num: usize, markdown: &str, failed: bool) -> PageResult {
    PageResult {
        page_num,
        markdown: markdown.to_string(),
        input_tokens: 0,
        output_tokens: 0,
        duration_ms: 0,
        retries: 0,
        error: if failed {
            Some(PageError::Timeout { page: page_num, secs: 60 })
        } else {
            None
        },
    }
}

#[test]
fn sequential_context_skips_failed_pages() {
    let mut ctx = SequentialContext::new();
    assert_eq!(ctx.prior_markdown(), None);
    ctx.record(&result(1, "# One  ", false));
    assert_eq!(ctx.prior_markdown(), Some("# One\n".to_string()));
    ctx.record(&result(2, "", true));
    assert_eq!(ctx.prior_markdown(), Some("# One\n".to_string()));
    ctx.record(&result(3, "three", false));
    assert_eq!(ctx.prior_markdown(), Some("three\n".to_string()));
}

#[test]
fn producer_walks_in_order_and_skips_out_of_range() {
    let mut p = Producer::new(vec![0, 2, 5, 999], 6);
    assert_eq!(p.next_page(), Some(0));
    assert_eq!(p.next_page(), Some(2));
    assert_eq!(p.next_page(), Some(5));
    assert_eq!(p.next_page(), None);
    assert_eq!(p.next_page(), None);
}

#[test]
fn producer_hands_out_every_page_in_range() {
    let mut p = Producer::new(vec![0, 999], 2);
    assert_eq!(p.next_page(), Some(0));
    assert_eq!(p.next_page(), None);
    let mut q = Producer::new(vec![1, 3, 4], 10);
    let mut got = Vec::new();
    while let Some(i) = q.next_page() {
        got.push(i);
    }
    assert_eq!(got, vec![1, 3, 4]);
}

#[test]
fn producer_stops_when_consumer_leaves() {
    let mut p = Producer::new((0..15).collect(), 15);
    assert_eq!(p.next_page(), Some(0));
    p.stop();
    assert_eq!(p.next_page(), None);
}

#[test]
fn messages_for_the_model() {
    assert_eq!(
        maintain_format_context("# Prev"),
        "Markdown must maintain consistent formatting with the following page:\n\n\"\"\"# Prev\"\"\""
    );
    assert_eq!(system_prompt_for(&None, FidelityTier::Tier2), DEFAULT_SYSTEM_PROMPT);
    assert_eq!(system_prompt_for(&None, FidelityTier::Tier1), TIER1_SYSTEM_PROMPT);
    assert_eq!(system_prompt_for(&None, FidelityTier::Tier3), TIER3_SYSTEM_PROMPT);
    assert!(TIER3_SYSTEM_PROMPT.contains("FORMULAS") && !TIER1_SYSTEM_PROMPT.contains("FORMULAS"));
    assert_eq!(
        system_prompt_for(&Some("custom".to_string()), FidelityTier::Tier3),
        "custom"
    );
    assert_eq!(context_message(false, &Some("x".to_string())), None);
    assert_eq!(context_message(true, &Some(String::new())), None);
    assert_eq!(context_message(true, &None), None);
    assert_eq!(
        context_message(true, &Some("x".to_string())),
        Some(maintain_format_context("x"))
    );
}

#[test]
fn page_events() {
    match page_event(&result(2, "héllo", false), 5) {
        PageEvent::Complete { page_num, total_pages, markdown_len } => {
            assert_eq!((page_num, total_pages, markdown_len), (2, 5, 6));
        }
        other => panic!("unexpected {other:?}"),
    }
    match page_event(&result(3, "", true), 5) {
        PageEvent::Failed { page_num, message, .. } => {
            assert_eq!(page_num, 3);
            assert_eq!(message, "Page 3: LLM call timed out after 60s");
        }
        other => panic!("unexpected {other:?}"),
    }
}
