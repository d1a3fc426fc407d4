use edgequake_pdf2md::assemble::{format_yaml_front_matter, RunTimings};
use edgequake_pdf2md::config::PageSeparator;
use edgequake_pdf2md::convert::{default_vision_model_for_provider, finish_conversion};
use edgequake_pdf2md::error::{PageError, Pdf2MdError};
use edgequake_pdf2md::output::{DocumentMetadata, PageResult};

fn ok_page(page_num: usize, markdown: &str, tokens: usize) -> PageResult {
    PageResult {
        page_num,
        markdown: markdown.to_string(),
        input_tokens: tokens,
        output_tokens: tokens * 2,
        duration_ms: 5,
        retries: 0,
        error: None,
    }
}

fn failed_page(page_num: usize) -> PageResult {
    PageResult {
        page_num,
        markdown: String::new(),
        input_tokens: 0,
        output_tokens: 0,
        duration_ms: 5,
        retries: 3,
        error: Some(PageError::LlmFailed { page: page_num, retries: 3, detail: "down".into() }),
    }
}

fn metadata(pages: usize) -> DocumentMetadata {
    DocumentMetadata {
        title: Some("T".into()),
        author: None,
        subject: None,
        creator: None,
        producer: Some("P".into()),
        creation_date: None,
        modification_date: None,
        page_count: pages,
        pdf_version: "1.7".into(),
        is_encrypted: false,
    }
}

fn timings() -> RunTimings {
    RunTimings { total_ms: 30, render_ms: 10, pipeline_ms: 20 }
}

#[test]
fn test_default_vision_model_mistral_variants() {
    for name in &["mistral", "mistral-ai", "mistralai"] {
        assert_eq!(
            default_vision_model_for_provider(name),
            "pixtral-12b-2409",
            "provider '{}' should default to pixtral-12b-2409",
            name
        );
    }
}

#[test]
fn test_default_vision_model_other_providers() {
    for name in &["openai", "anthropic", "gemini", "azure", "unknown"] {
        assert_eq!(
            default_vision_model_for_provider(name),
            "gpt-4.1-nano",
            "provider '{}' should default to gpt-4.1-nano",
            name
        );
    }
}

#[test]
fn test_default_vision_model_local_providers() {
    for name in &["ollama", "lmstudio", "lm-studio", "lm_studio"] {
        assert_eq!(
            default_vision_model_for_provider(name),
            "llava",
            "provider '{}' should default to llava (vision-capable local model)",
            name
        );
    }
}

#[test]
fn out_of_order_completion_is_assembled_in_page_order() {
    let results = vec![ok_page(3, "three", 1), ok_page(1, "one", 2), ok_page(2, "two", 3)];
    let out = finish_conversion(
        results,
        &vec![0, 1, 2],
        metadata(3),
        3,
        false,
        &PageSeparator::HorizontalRule,
        timings(),
    )
    .unwrap();
    assert_eq!(out.markdown, "one\n\n\n---\n\ntwo\n\n\n---\n\nthree\n");
    assert_eq!(out.stats.processed_pages, 3);
    assert_eq!(out.stats.failed_pages, 0);
    assert_eq!(out.stats.skipped_pages, 0);
    assert_eq!(out.stats.total_input_tokens, 6);
    assert_eq!(out.stats.total_output_tokens, 12);
    let order: Vec<usize> = out.pages.iter().map(|p| p.page_num).collect();
    assert_eq!(order, vec![1, 2, 3]);
}

#[test]
fn failed_and_skipped_pages_are_counted() {
    let results = vec![failed_page(2), ok_page(4, "four  ", 1)];
    let out = finish_conversion(
        results,
        &vec![1, 2, 3],
        metadata(5),
        3,
        true,
        &PageSeparator::Comment,
        timings(),
    )
    .unwrap();
    assert_eq!(out.stats.processed_pages, 1);
    assert_eq!(out.stats.failed_pages, 1);
    assert_eq!(out.stats.skipped_pages, 1);
    assert_eq!(
        out.stats.processed_pages + out.stats.failed_pages + out.stats.skipped_pages,
        3
    );
    assert_eq!(out.stats.total_pages, 5);
    assert_eq!(
        out.markdown,
        "---\ntitle: \"T\"\nproducer: \"P\"\npages: 5\npdf_version: \"1.7\"\n---\n\nfour\n"
    );
}

#[test]
fn comment_separators_name_the_page() {
    let results = vec![ok_page(2, "b", 1), ok_page(1, "a", 1)];
    let out = finish_conversion(results, &vec![0, 1], metadata(2), 3, false, &PageSeparator::Comment, timings())
        .unwrap();
    assert_eq!(out.markdown, "a\n\n\n<!-- page 2 -->\n\nb\n");
}

#[test]
fn all_pages_failed_is_fatal() {
    let results = vec![failed_page(2), failed_page(1)];
    match finish_conversion(results, &vec![0, 1], metadata(2), 3, false, &PageSeparator::Blank, timings()) {
        Err(Pdf2MdError::AllPagesFailed { total, retries, first_error }) => {
            assert_eq!(total, 2);
            assert_eq!(retries, 3);
            assert_eq!(first_error, "Page 1: LLM call failed after 3 retries: down");
        }
        other => panic!("expected AllPagesFailed, got {other:?}"),
    }
    match finish_conversion(Vec::new(), &vec![0, 1], metadata(2), 1, false, &PageSeparator::Blank, timings()) {
        Err(Pdf2MdError::AllPagesFailed { total, first_error, .. }) => {
            assert_eq!(total, 0);
            assert_eq!(first_error, "Unknown error");
        }
        other => panic!("expected AllPagesFailed, got {other:?}"),
    }
}

#[test]
fn yaml_front_matter_omits_missing_fields() {
    let mut m = metadata(2);
    m.pdf_version = String::new();
    m.producer = None;
    assert_eq!(format_yaml_front_matter(&m), "---\ntitle: \"T\"\npages: 2\n---\n\n");
}

#[test]
fn results_must_match_the_selection() {
    let dup = vec![ok_page(1, "a", 1), ok_page(1, "b", 1)];
    assert!(matches!(
        finish_conversion(dup, &vec![0, 1], metadata(2), 3, false, &PageSeparator::Blank, timings()),
        Err(Pdf2MdError::Internal(_))
    ));
    let unselected = vec![ok_page(2, "b", 1)];
    assert!(matches!(
        finish_conversion(unselected, &vec![0], metadata(2), 3, false, &PageSeparator::Blank, timings()),
        Err(Pdf2MdError::Internal(_))
    ));
}
