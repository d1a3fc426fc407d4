use edgequake_pdf2md::postprocess::{
    clean_markdown, collapse_blank_lines, ensure_final_newline, fix_broken_tables,
    is_placeholder_url, is_separator_row, is_table_row, normalise_heading_spacing,
    normalise_line_endings, remove_hallucinated_images, remove_invisible_chars,
    remove_mid_table_separators, strip_markdown_fences, trim_trailing_whitespace,
};

#[test]
fn test_strip_fences() {
    let input = "```markdown\n# Hello\nWorld\n```";
    assert_eq!(strip_markdown_fences(input), "# Hello\nWorld");
}

#[test]
fn test_strip_fences_no_lang() {
    let input = "```\n# Hello\nWorld\n```";
    assert_eq!(strip_markdown_fences(input), "# Hello\nWorld");
}

#[test]
fn test_no_fences_passthrough() {
    let input = "# Hello\nWorld";
    assert_eq!(strip_markdown_fences(input), "# Hello\nWorld");
}

#[test]
fn strip_fences_keeps_other_languages() {
    let input = "```python\nx = 1\n```";
    assert_eq!(strip_markdown_fences(input), input);
}

#[test]
fn strip_fences_trims_surrounding_whitespace() {
    assert_eq!(strip_markdown_fences("  \n```\nA\n```  \n"), "A");
    assert_eq!(strip_markdown_fences("```\n\n```"), "");
}

#[test]
fn test_normalise_line_endings() {
    assert_eq!(normalise_line_endings("a\r\nb\rc"), "a\nb\nc");
}

#[test]
fn normalise_line_endings_double_cr() {
    assert_eq!(normalise_line_endings("a\r\r\nb"), "a\n\nb");
}

#[test]
fn test_trim_trailing_whitespace() {
    assert_eq!(
        trim_trailing_whitespace("  hello   \nworld  "),
        "  hello\nworld"
    );
}

#[test]
fn trim_trailing_whitespace_drops_final_newline() {
    assert_eq!(trim_trailing_whitespace("a \t\nb\n"), "a\nb");
    assert_eq!(trim_trailing_whitespace(""), "");
}

#[test]
fn test_collapse_blank_lines() {
    let input = "a\n\n\n\n\n\nb";
    assert_eq!(collapse_blank_lines(input), "a\n\n\nb");
}

#[test]
fn collapse_blank_lines_keeps_three() {
    assert_eq!(collapse_blank_lines("a\n\n\nb\n\n\n\nc"), "a\n\n\nb\n\n\nc");
}

#[test]
fn test_ensure_final_newline() {
    assert_eq!(ensure_final_newline("hello"), "hello\n");
    assert_eq!(ensure_final_newline("hello\n\n\n"), "hello\n");
    assert_eq!(ensure_final_newline(""), "\n");
}

#[test]
fn test_heading_spacing() {
    let input = "some text\n# Heading\nmore text";
    let result = normalise_heading_spacing(input);
    assert!(result.contains("\n\n# Heading\n"));
}

#[test]
fn heading_spacing_exact() {
    assert_eq!(
        normalise_heading_spacing("# A\ntext\n\n\n## B\nx"),
        "# A\ntext\n\n## B\nx\n"
    );
    assert_eq!(normalise_heading_spacing("a\n#tag"), "a\n#tag\n");
}

#[test]
fn test_fix_broken_table() {
    let input = "| A | B |\n| 1 | 2 |";
    let result = fix_broken_tables(input);
    let lines: Vec<&str> = result.lines().collect();
    assert_eq!(lines.len(), 3);
    assert!(is_separator_row(lines[1]));
}

#[test]
fn fix_broken_table_exact_separator() {
    assert_eq!(
        fix_broken_tables("| A | B |\n| 1 | 2 |"),
        "| A | B |\n| --- | --- |\n| 1 | 2 |"
    );
    assert_eq!(fix_broken_tables("|x|\n|y|"), "|x|\n| --- |\n|y|");
}

#[test]
fn test_table_with_separator_unchanged() {
    let input = "| A | B |\n| --- | --- |\n| 1 | 2 |";
    let result = fix_broken_tables(input);
    let lines: Vec<&str> = result.lines().collect();
    assert_eq!(lines.len(), 3);
}

#[test]
fn table_row_classification() {
    assert!(is_table_row("  | a |  "));
    assert!(!is_table_row("||"));
    assert!(!is_table_row("| a"));
    assert!(is_separator_row("| :--- | ---: |"));
    assert!(!is_separator_row("| a |"));
    assert!(!is_separator_row("---"));
}

#[test]
fn test_remove_invisible() {
    let input = "hello\u{200B}world\u{FEFF}foo\u{00AD}bar";
    assert_eq!(remove_invisible_chars(input), "helloworldfoobar");
}

#[test]
fn remove_invisible_joiners() {
    assert_eq!(remove_invisible_chars("a\u{200C}b\u{200D}c\u{2060}d"), "abcd");
}

#[test]
fn test_remove_hallucinated_image_placeholder_url() {
    let input = "Some text\n![Chart Title](chart.png)\nMore text";
    let result = remove_hallucinated_images(input);
    assert!(
        !result.contains("!["),
        "Should remove image with local path"
    );
    assert!(
        result.contains("*Chart Title*"),
        "Should keep alt text as italic"
    );
}

#[test]
fn test_remove_hallucinated_image_fake_url() {
    let input = "![Diagram](image-url)";
    let result = remove_hallucinated_images(input);
    assert!(!result.contains("!["));
    assert!(result.contains("*Diagram*"));
}

#[test]
fn test_keep_real_image_link() {
    let input = "![Figure](https://arxiv.org/figures/fig1.png)";
    let result = remove_hallucinated_images(input);
    assert!(result.contains("![Figure]"), "Should keep real image link");
}

#[test]
fn made_up_image_links_become_captions() {
    let input = "![Chart](chart.png)\n![Real](https://arxiv.org/f.png)\n![Fake](https://example.com/x.png)";
    assert_eq!(
        remove_hallucinated_images(input),
        "*Chart*\n![Real](https://arxiv.org/f.png)\n*Fake*"
    );
    assert_eq!(
        clean_markdown(input),
        "*Chart*\n![Real](https://arxiv.org/f.png)\n*Fake*\n"
    );
}

#[test]
fn image_with_blank_alt_disappears() {
    assert_eq!(remove_hallucinated_images("a ![  ](x.png) b"), "a  b");
    assert_eq!(remove_hallucinated_images("![a](b"), "![a](b");
}

#[test]
fn placeholder_urls() {
    assert!(is_placeholder_url(""));
    assert!(is_placeholder_url("  "));
    assert!(is_placeholder_url("figure.png"));
    assert!(is_placeholder_url("https://via.placeholder.com/1.png"));
    assert!(is_placeholder_url("http://picsum.photos/200"));
    assert!(!is_placeholder_url(" https://arxiv.org/f.png "));
}

#[test]
fn placeholder_is_decided_by_the_host() {
    assert!(!is_placeholder_url("https://arxiv.org/img/example.com.png"));
    assert!(!is_placeholder_url("https://notexample.com/a.png"));
    assert!(is_placeholder_url("https://example.com:8080/x.png"));
    assert!(is_placeholder_url("https://i.picsum.photos/id/1/200"));
    assert!(is_placeholder_url("http://placehold.it?text=x"));
    assert!(is_placeholder_url("http://example.com"));
    assert_eq!(
        clean_markdown("![Fig](https://arxiv.org/img/example.com.png)"),
        "![Fig](https://arxiv.org/img/example.com.png)\n"
    );
}

#[test]
fn test_remove_mid_table_separator() {
    let input = "| A | B |\n| --- | --- |\n| 1 | 2 |\n| --- | --- |\n| 3 | 4 |";
    let result = remove_mid_table_separators(input);
    let sep_count = result.lines().filter(|l| is_separator_row(l)).count();
    assert_eq!(sep_count, 1, "Only one separator should remain");
    assert!(result.contains("| 3 | 4 |"), "Data rows should remain");
}

#[test]
fn stray_separator_row_is_dropped() {
    let input = "| A | B |\n| --- | --- |\n| 1 | 2 |\n| --- | --- |\n| 3 | 4 |";
    assert_eq!(
        remove_mid_table_separators(input),
        "| A | B |\n| --- | --- |\n| 1 | 2 |\n| 3 | 4 |"
    );
}

#[test]
fn test_keep_only_header_separator() {
    let input = "| H1 | H2 |\n| --- | --- |\n| a | b |\n| c | d |";
    let result = remove_mid_table_separators(input);
    assert_eq!(result, input, "Normal table should be unchanged");
}

#[test]
fn test_clean_markdown_full_pipeline() {
    let input = "```markdown\n# Title\r\n\r\nSome text   \n\n\n\n\n\n## Section\n\n| A | B |\n| 1 | 2 |\n```";
    let result = clean_markdown(input);
    assert!(result.starts_with("# Title"));
    assert!(result.ends_with('\n'));
    assert!(!result.contains("\n\n\n\n"));
}

#[test]
fn clean_markdown_fenced_page() {
    let input = "```markdown\n# T\r\n\r\nHi   \n\n\n\n\n\n## S\n\n| A | B |\n| 1 | 2 |\n```";
    let result = clean_markdown(input);
    assert!(result.starts_with("# T"));
    assert!(result.ends_with('\n') && !result.ends_with("\n\n"));
    assert!(result.contains("| A | B |\n| --- | --- |\n| 1 | 2 |"));
    assert!(result.contains("\n\n## S"));
    assert!(!result.contains("\n\n\n\n"));
    assert_eq!(
        result,
        "# T\n\nHi\n\n## S\n\n| A | B |\n| --- | --- |\n| 1 | 2 |\n"
    );
}

#[test]
fn clean_markdown_output_shape() {
    for input in ["", "   ", "a\u{200B}", "x\n\n\n\n", "```\n\u{FEFF}\n```"] {
        let out = clean_markdown(input);
        assert!(out.ends_with('\n'));
        assert!(!out.ends_with("\n\n") || out == "\n");
        assert!(!out.contains('\u{200B}') && !out.contains('\u{FEFF}'));
    }
    assert_eq!(clean_markdown(""), "\n");
}

#[test]
fn clean_markdown_is_stable_on_plain_text() {
    for input in ["# A\n\ntext\n", "| a | b |\n| --- | --- |\n| 1 | 2 |\n", "x\n\n\ny\n"] {
        let once = clean_markdown(input);
        assert_eq!(clean_markdown(&once), once);
    }
}

#[test]
fn single_passes_are_idempotent() {
    for input in ["a\r\n\r\rb", "x\n\n\n\n\n\ny\n\n\n\nz", "p\u{200B}q\u{FEFF}", "  t  \n\n\t"] {
        let n = normalise_line_endings(input);
        assert_eq!(normalise_line_endings(&n), n);
        let c = collapse_blank_lines(input);
        assert_eq!(collapse_blank_lines(&c), c);
        let i = remove_invisible_chars(input);
        assert_eq!(remove_invisible_chars(&i), i);
        let f = ensure_final_newline(input);
        assert_eq!(ensure_final_newline(&f), f);
    }
}

#[test]
fn whole_cleanup_is_not_idempotent_on_nested_fences() {
    let input = "```markdown\n```\na\n```\n```";
    let once = clean_markdown(input);
    assert_eq!(once, "```\na\n```\n");
    assert_eq!(clean_markdown(&once), "a\n");
}
