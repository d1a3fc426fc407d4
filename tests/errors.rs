use edgequake_pdf2md::error::{PageError, Pdf2MdError};

#[test]
fn partial_failure_display() {
    let e = Pdf2MdError::PartialFailure {
        success: 9,
        failed: 1,
        total: 10,
    };
    let msg = e.message();
    assert!(msg.contains("1/10"), "got: {msg}");
}

#[test]
fn rate_limit_display_with_retry() {
    let e = Pdf2MdError::RateLimitExceeded {
        provider: "openai".into(),
        retry_after_secs: Some(60),
    };
    assert!(e.message().contains("openai"));
}

#[test]
fn rate_limit_display_without_retry() {
    let e = Pdf2MdError::RateLimitExceeded {
        provider: "gemini".into(),
        retry_after_secs: None,
    };
    assert!(e.message().contains("gemini"));
}

#[test]
fn api_timeout_display() {
    let e = Pdf2MdError::ApiTimeout {
        page: 3,
        elapsed_ms: 5000,
    };
    assert!(e.message().contains("5000ms"));
    assert!(e.message().contains("page 3"));
}

#[test]
fn auth_error_display() {
    let e = Pdf2MdError::AuthError {
        provider: "anthropic".into(),
        detail: "invalid key".into(),
    };
    assert!(e.message().contains("anthropic"));
    assert!(e.message().contains("invalid key"));
}

#[test]
fn exact_messages() {
    assert_eq!(
        Pdf2MdError::PageOutOfRange { page: 0, total: 4 }.message(),
        "Page 0 is out of range (document has 4 pages)"
    );
    assert_eq!(
        Pdf2MdError::NotAPdf { path: "x.txt".into(), magic: *b"abcd" }.message(),
        "File is not a valid PDF: 'x.txt'\nFirst bytes: [97, 98, 99, 100]"
    );
    assert_eq!(
        Pdf2MdError::AllPagesFailed { total: 2, retries: 3, first_error: "boom".into() }.message(),
        "All 2 pages failed after 3 retries each.\nFirst error: boom"
    );
    assert_eq!(
        PageError::LlmFailed { page: 2, retries: 3, detail: "down".into() }.message(),
        "Page 2: LLM call failed after 3 retries: down"
    );
    assert_eq!(
        PageError::Timeout { page: 7, secs: 60 }.message(),
        "Page 7: LLM call timed out after 60s"
    );
}
