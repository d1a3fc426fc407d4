use edgequake_pdf2md::cli::{parse_pages, parse_pages_lowered, parse_separator, PageSpecError};
use edgequake_pdf2md::config::{ConversionConfig, FidelityTier, PageSelection, PageSeparator};
use edgequake_pdf2md::convert::{choose_provider, ProviderChoice};
use edgequake_pdf2md::engine::{archive_url, cache_dir_name, platform_info, PdfiumAutoError};
use edgequake_pdf2md::error::Pdf2MdError;
use edgequake_pdf2md::report::{shorten_error, summarize_run, RunSummary};

#[test]
fn parse_pages_forms() {
    assert!(matches!(parse_pages(" ALL "), Ok(PageSelection::All)));
    assert!(matches!(parse_pages("5"), Ok(PageSelection::Single(5))));
    assert!(matches!(parse_pages("3-15"), Ok(PageSelection::Range(3, 15))));
    assert!(matches!(parse_pages(" 3 - 15 "), Ok(PageSelection::Range(3, 15))));
    match parse_pages("1, 3,5,7") {
        Ok(PageSelection::List(v)) => assert_eq!(v, vec![1, 3, 5, 7]),
        other => panic!("unexpected {other:?}"),
    }
}

#[test]
fn parse_pages_errors() {
    assert_eq!(parse_pages("0").unwrap_err(), PageSpecError::ZeroPage(0));
    assert_eq!(parse_pages("x").unwrap_err(), PageSpecError::InvalidNumber);
    assert_eq!(parse_pages("a-3").unwrap_err(), PageSpecError::InvalidStart);
    assert_eq!(parse_pages("3-").unwrap_err(), PageSpecError::InvalidEnd);
    assert_eq!(parse_pages("0-3").unwrap_err(), PageSpecError::ZeroPage(0));
    assert_eq!(parse_pages("5-3").unwrap_err(), PageSpecError::StartAfterEnd(5, 3));
    assert_eq!(
        parse_pages("1,,3").unwrap_err(),
        PageSpecError::InvalidListItem(String::new())
    );
    assert_eq!(parse_pages("1, 0").unwrap_err(), PageSpecError::ZeroPage(0));
    assert!(parse_pages_lowered("ALL").is_err());
}

#[test]
fn parse_separator_forms() {
    assert!(matches!(parse_separator("None"), PageSeparator::Blank));
    assert!(matches!(parse_separator("hr"), PageSeparator::HorizontalRule));
    assert!(matches!(parse_separator("---"), PageSeparator::HorizontalRule));
    assert!(matches!(parse_separator("COMMENT"), PageSeparator::Comment));
    match parse_separator("* * *") {
        PageSeparator::Custom(s) => assert_eq!(s, "* * *"),
        other => panic!("unexpected {other:?}"),
    }
    match parse_separator("Page Break") {
        PageSeparator::Custom(s) => assert_eq!(s, "page break"),
        other => panic!("unexpected {other:?}"),
    }
}

#[test]
fn builder_defaults_and_clamping() {
    let c = ConversionConfig::default();
    assert_eq!((c.dpi, c.max_rendered_pixels, c.concurrency), (150, 2000, 10));
    assert_eq!((c.max_tokens, c.max_retries, c.retry_backoff_ms), (4096, 3, 500));
    assert_eq!((c.download_timeout_secs, c.api_timeout_secs), (120, 60));
    assert_eq!(c.fidelity, FidelityTier::Tier2);
    let c = ConversionConfig::builder()
        .dpi(1000)
        .max_rendered_pixels(5)
        .concurrency(0)
        .build()
        .unwrap();
    assert_eq!((c.dpi, c.max_rendered_pixels, c.concurrency), (400, 100, 1));
    assert_eq!(ConversionConfig::builder().dpi(10).build().unwrap().dpi, 72);
}

#[test]
fn test_issue13_max_tokens_config_builds_for_gpt41_nano() {
    let config = ConversionConfig::builder()
        .dpi(150)
        .max_tokens(2048)
        .build()
        .expect("config must build with max_tokens set");
    assert_eq!(config.max_tokens, 2048, "max_tokens must round-trip through builder");
}

#[test]
fn build_rejects_invalid_settings() {
    let mut b = ConversionConfig::builder();
    b.config.dpi = 50;
    assert!(matches!(b.build(), Err(Pdf2MdError::InvalidConfig(_))));
    let mut b = ConversionConfig::builder();
    b.config.concurrency = 0;
    assert!(matches!(b.build(), Err(Pdf2MdError::InvalidConfig(_))));
}

#[test]
fn test_mistral_config_builder_accepts_provider_name() {
    let config = ConversionConfig::builder()
        .dpi(150)
        .concurrency(1)
        .build()
        .expect("builder must succeed");
    let mut cfg = config;
    cfg.provider_name = Some("mistral".to_string());
    cfg.model = Some("pixtral-12b-2409".to_string());
    assert_eq!(cfg.provider_name.as_deref(), Some("mistral"));
    assert_eq!(cfg.model.as_deref(), Some("pixtral-12b-2409"));
}

#[test]
fn test_ollama_config_uses_llava_as_default_vision_model() {
    let config = ConversionConfig::builder().dpi(150).build().expect("builder must succeed");
    let mut cfg = config;
    cfg.provider_name = Some("ollama".to_string());
    assert_eq!(cfg.provider_name.as_deref(), Some("ollama"));
    assert!(cfg.model.is_none(), "model should be None so the default kicks in");
    match choose_provider(false, &cfg.provider_name, &cfg.model, &None, &None, &None, &None) {
        ProviderChoice::Named { provider, model } => {
            assert_eq!(provider, "ollama");
            assert_eq!(model, "llava");
        }
        other => panic!("unexpected {other:?}"),
    }
}

#[test]
fn test_lmstudio_config_uses_llava_as_default_vision_model() {
    let config = ConversionConfig::builder().dpi(150).build().expect("builder must succeed");
    let mut cfg = config;
    cfg.provider_name = Some("lmstudio".to_string());
    assert!(cfg.model.is_none(), "model should be None so the default vision model kicks in");
    match choose_provider(false, &cfg.provider_name, &cfg.model, &None, &None, &None, &None) {
        ProviderChoice::Named { model, .. } => assert_eq!(model, "llava"),
        other => panic!("unexpected {other:?}"),
    }
}

#[test]
fn provider_resolution_order() {
    let s = |x: &str| Some(x.to_string());
    assert!(matches!(
        choose_provider(true, &s("openai"), &None, &None, &None, &None, &None),
        ProviderChoice::Supplied
    ));
    match choose_provider(false, &None, &None, &s("gemini"), &s("g-1"), &s("k"), &None) {
        ProviderChoice::Named { provider, model } => assert_eq!((provider.as_str(), model.as_str()), ("gemini", "g-1")),
        other => panic!("unexpected {other:?}"),
    }
    match choose_provider(false, &None, &None, &s("gemini"), &s(""), &s("k"), &s("m")) {
        ProviderChoice::Named { provider, model } => assert_eq!((provider.as_str(), model.as_str()), ("openai", "gpt-4.1-nano")),
        other => panic!("unexpected {other:?}"),
    }
    match choose_provider(false, &None, &s("x"), &None, &None, &s(""), &s("m")) {
        ProviderChoice::Named { provider, model } => assert_eq!((provider.as_str(), model.as_str()), ("mistral", "x")),
        other => panic!("unexpected {other:?}"),
    }
    assert!(matches!(
        choose_provider(false, &None, &None, &None, &None, &None, &None),
        ProviderChoice::AutoDetect
    ));
}

#[test]
fn detect_platform_is_supported() {
    platform_info("linux", "x86_64")
        .expect("current platform should be supported");
}

#[test]
fn platform_info_fields_nonempty() {
    let info = platform_info("linux", "x86_64").unwrap();
    assert!(!info.archive_name.is_empty());
    assert!(!info.lib_path_in_archive.is_empty());
    assert!(!info.lib_name.is_empty());
}

#[test]
fn platform_table() {
    let linux = platform_info("linux", "x86_64").unwrap();
    assert_eq!(linux.archive_name, "pdfium-linux-x64.tgz");
    assert_eq!(linux.lib_name, "libpdfium.so");
    let win = platform_info("windows", "x86").unwrap();
    assert_eq!(win.lib_path_in_archive, "bin/pdfium.dll");
    assert!(matches!(
        platform_info("plan9", "mips"),
        Err(PdfiumAutoError::UnsupportedPlatform { .. })
    ));
    assert_eq!(
        archive_url("pdfium-linux-x64.tgz"),
        "https://github.com/bblanchon/pdfium-binaries/releases/download/chromium%2F7690/pdfium-linux-x64.tgz"
    );
    assert_eq!(cache_dir_name(), "pdfium-7690");
}

#[test]
fn report_helpers() {
    assert_eq!(shorten_error("short"), "short");
    let long = "e".repeat(100);
    let s = shorten_error(&long);
    assert_eq!(s.chars().count(), 80);
    assert!(s.ends_with('\u{2026}'));
    assert_eq!(summarize_run(3, 3), RunSummary::AllConverted);
    assert_eq!(summarize_run(3, 0), RunSummary::AllFailed);
    assert_eq!(summarize_run(3, 1), RunSummary::Partial { failed: 2 });
}
