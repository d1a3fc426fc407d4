//! Per-page results, document metadata, statistics and the assembled output.
use vstd::prelude::*;
use crate::error::PageError;

verus! {

/// The outcome of one attempted page.
#[derive(Debug, Clone)]
pub struct PageResult {
    /// Page number, from one.
    pub page_num: usize,
    /// The page's Markdown (empty on failure).
    pub markdown: String,
    /// Tokens sent to the model.
    pub input_tokens: usize,
    /// Tokens produced by the model.
    pub output_tokens: usize,
    /// Wall-clock time of the page, in milliseconds.
    pub duration_ms: u64,
    /// How many retries were used.
    pub retries: u8,
    /// Why the page failed, if it did.
    pub error: Option<PageError>,
}

/// The mathematical content of a [`PageResult`].
pub struct PageView {
    pub page_num: usize,
    pub markdown: Seq<char>,
    pub input_tokens: usize,
    pub output_tokens: usize,
    pub duration_ms: u64,
    pub retries: u8,
    pub error: Option<PageError>,
}

impl View for PageResult {
    type V = PageView;

    open spec fn view(&self) -> PageView {
        PageView {
            page_num: self.page_num,
            markdown: self.markdown@,
            input_tokens: self.input_tokens,
            output_tokens: self.output_tokens,
            duration_ms: self.duration_ms,
            retries: self.retries,
            error: self.error,
        }
    }
}

/// The views of a sequence of page results.
pub open spec fn page_views(s: Seq<PageResult>) -> Seq<PageView> {
    s.map_values(|p: PageResult| p@)
}

/// What the PDF says about itself.
#[derive(Debug, Clone)]
pub struct DocumentMetadata {
    pub title: Option<String>,
    pub author: Option<String>,
    pub subject: Option<String>,
    pub creator: Option<String>,
    pub producer: Option<String>,
    pub creation_date: Option<String>,
    pub modification_date: Option<String>,
    /// Number of pages in the document.
    pub page_count: usize,
    /// PDF version as text (empty when unknown).
    pub pdf_version: String,
    pub is_encrypted: bool,
}

/// Aggregate figures of a conversion.
#[derive(Debug, Clone, Copy, PartialEq, Eq, Structural)]
pub struct ConversionStats {
    /// Pages in the document.
    pub total_pages: usize,
    /// Pages converted without error.
    pub processed_pages: usize,
    /// Pages whose result carries an error.
    pub failed_pages: usize,
    /// Selected pages that produced no result.
    pub skipped_pages: usize,
    pub total_input_tokens: u64,
    pub total_output_tokens: u64,
    pub total_duration_ms: u64,
    /// Summed render and encode time of the pages.
    pub render_duration_ms: u64,
    pub llm_duration_ms: u64,
}

/// The result of a whole conversion.
#[derive(Debug)]
pub struct ConversionOutput {
    /// The assembled document.
    pub markdown: String,
    /// Every page result, in ascending page order.
    pub pages: Vec<PageResult>,
    pub metadata: DocumentMetadata,
    pub stats: ConversionStats,
}

} // verus!
