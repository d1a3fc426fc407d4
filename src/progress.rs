//! Progress events of a conversion.
use vstd::prelude::*;
use crate::output::PageResult;
use crate::error::PageError;

verus! {

/// Receives progress events; every method does nothing unless overridden.
/// Pages may be reported concurrently, so implementations guard their own state.
pub trait ConversionProgressCallback: Send + Sync {
    /// Before any page, with the number of selected pages.
    fn on_conversion_start(&self, total_pages: usize) {
    }

    /// Before the model is called for a page.
    fn on_page_start(&self, page_num: usize, total_pages: usize) {
    }

    /// After a page converted, with the byte length of its Markdown.
    fn on_page_complete(&self, page_num: usize, total_pages: usize, markdown_len: usize) {
    }

    /// After a page failed, with the error's description.
    fn on_page_error(&self, page_num: usize, total_pages: usize, error: String) {
    }

    /// After every page was attempted.
    fn on_conversion_complete(&self, total_pages: usize, success_count: usize) {
    }
}

/// A callback that ignores every event.
pub struct NoopProgressCallback;

impl ConversionProgressCallback for NoopProgressCallback {

}

/// What to report once a page's model call has returned.
#[derive(Debug)]
pub enum PageEvent {
    /// The page converted; its Markdown has this many bytes.
    Complete { page_num: usize, total_pages: usize, markdown_len: usize },
    /// The page failed with this description.
    Failed { page_num: usize, total_pages: usize, message: String },
}

/// The event that reports a page result.
pub fn page_event(result: &PageResult, total_pages: usize) -> (r: PageEvent)
    ensures
        result.error is None ==> (r matches PageEvent::Complete {
            page_num,
            total_pages: t,
            markdown_len,
        } && page_num == result.page_num && t == total_pages && markdown_len
            == vstd::utf8::encode_utf8(result.markdown@).len() as usize),
        result.error matches Some(e) ==> (r matches PageEvent::Failed {
            page_num,
            total_pages: t,
            message,
        } && page_num == result.page_num && t == total_pages && message@ == e.message_spec()),
{
    match &result.error {
        None => PageEvent::Complete {
            page_num: result.page_num,
            total_pages,
            markdown_len: result.markdown.as_str().len(),
        },
        Some(e) => PageEvent::Failed { page_num: result.page_num, total_pages, message: e.message() },
    }
}

} // verus!
