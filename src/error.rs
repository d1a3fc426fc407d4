//! Fatal conversion errors and non-fatal per-page errors.
use vstd::prelude::*;
use crate::text::{decimal, u64_decimal, usize_decimal};

verus! {

/// A fatal error: the conversion cannot go on.
#[derive(Debug)]
pub enum Pdf2MdError {
    /// No file at the given path.
    FileNotFound { path: String },
    /// The file cannot be read.
    PermissionDenied { path: String },
    /// Neither a file path nor an HTTP(S) URL.
    InvalidInput { input: String },
    /// The download of a URL failed.
    DownloadFailed { url: String, reason: String },
    /// The download of a URL took too long.
    DownloadTimeout { url: String, secs: u64 },
    /// The file does not start with `%PDF`.
    NotAPdf { path: String, magic: [u8; 4] },
    /// The PDF cannot be parsed.
    CorruptPdf { path: String, detail: String },
    /// The PDF is encrypted and no password was given.
    PasswordRequired { path: String },
    /// The given password does not open the PDF.
    WrongPassword { path: String },
    /// The selection holds no page of the document.
    PageOutOfRange { page: usize, total: usize },
    /// A page could not be rasterised.
    RasterisationFailed { page: usize, detail: String },
    /// No model provider could be set up.
    ProviderNotConfigured { provider: String, hint: String },
    /// The model API refused a request.
    LlmApiError { message: String },
    /// Every attempted page failed.
    AllPagesFailed { total: usize, retries: u32, first_error: String },
    /// Some pages failed (for callers that treat that as an error).
    PartialFailure { success: usize, failed: usize, total: usize },
    /// The model API asked to slow down.
    RateLimitExceeded { provider: String, retry_after_secs: Option<u64> },
    /// A model call took too long.
    ApiTimeout { page: usize, elapsed_ms: u64 },
    /// The model API refused the credentials.
    AuthError { provider: String, detail: String },
    /// The output file could not be written.
    OutputWriteFailed { path: String, detail: String },
    /// The configuration is invalid.
    InvalidConfig(String),
    /// The PDF engine could not be loaded.
    PdfiumBindingFailed(String),
    /// Anything else.
    Internal(String),
}

/// `[a, b, c, d]` with each byte in decimal.
pub open spec fn bytes_text(m: [u8; 4]) -> Seq<char> {
    "["@ + decimal(m[0] as nat) + ", "@ + decimal(m[1] as nat) + ", "@ + decimal(m[2] as nat)
        + ", "@ + decimal(m[3] as nat) + "]"@
}

impl Pdf2MdError {
    /// The human-readable description of the error.
    pub open spec fn message_spec(&self) -> Seq<char> {
        match self {
            Pdf2MdError::FileNotFound { path } => "PDF file not found: '"@ + path@
                + "'\nCheck the path exists and is readable."@,
            Pdf2MdError::PermissionDenied { path } => "Permission denied reading '"@ + path@
                + "'\nTry: chmod +r \""@ + path@ + "\""@,
            Pdf2MdError::InvalidInput { input } => "Invalid input '"@ + input@
                + "': not a file path or a valid HTTP/HTTPS URL"@,
            Pdf2MdError::DownloadFailed { url, reason } => "Failed to download '"@ + url@ + "': "@
                + reason@ + "\nCheck your internet connection."@,
            Pdf2MdError::DownloadTimeout { url, secs } => "Download timed out after "@ + decimal(
                *secs as nat,
            ) + "s for '"@ + url@ + "'\nIncrease --download-timeout."@,
            Pdf2MdError::NotAPdf { path, magic } => "File is not a valid PDF: '"@ + path@
                + "'\nFirst bytes: "@ + bytes_text(*magic),
            Pdf2MdError::CorruptPdf { path, detail } => "PDF '"@ + path@ + "' is corrupt: "@
                + detail@,
            Pdf2MdError::PasswordRequired { path } => "PDF '"@ + path@
                + "' is encrypted and requires a password."@,
            Pdf2MdError::WrongPassword { path } => "Wrong password for PDF '"@ + path@ + "'"@,
            Pdf2MdError::PageOutOfRange { page, total } => "Page "@ + decimal(*page as nat)
                + " is out of range (document has "@ + decimal(*total as nat) + " pages)"@,
            Pdf2MdError::RasterisationFailed { page, detail } => "Rasterisation failed for page "@
                + decimal(*page as nat) + ": "@ + detail@,
            Pdf2MdError::ProviderNotConfigured { provider, hint } => "LLM provider '"@ + provider@
                + "' is not configured.\n"@ + hint@,
            Pdf2MdError::LlmApiError { message } => "LLM API error: "@ + message@,
            Pdf2MdError::AllPagesFailed { total, retries, first_error } => "All "@ + decimal(
                *total as nat,
            ) + " pages failed after "@ + decimal(*retries as nat) + " retries each.\nFirst error: "@
                + first_error@,
            Pdf2MdError::PartialFailure { success, failed, total } => decimal(*failed as nat) + "/"@
                + decimal(*total as nat) + " pages failed during conversion"@,
            Pdf2MdError::RateLimitExceeded { provider, retry_after_secs } =>
                "Rate limit exceeded for provider '"@ + provider@ + "'"@,
            Pdf2MdError::ApiTimeout { page, elapsed_ms } => "API call timed out after "@ + decimal(
                *elapsed_ms as nat,
            ) + "ms on page "@ + decimal(*page as nat),
            Pdf2MdError::AuthError { provider, detail } => "Authentication error from provider '"@
                + provider@ + "': "@ + detail@,
            Pdf2MdError::OutputWriteFailed { path, detail } => "Failed to write output file '"@
                + path@ + "': "@ + detail@,
            Pdf2MdError::InvalidConfig(m) => "Invalid configuration: "@ + m@,
            Pdf2MdError::PdfiumBindingFailed(m) => "Failed to bind to pdfium library: "@ + m@,
            Pdf2MdError::Internal(m) => "Internal error: "@ + m@,
        }
    }

    /// The human-readable description of the error.
    pub fn message(&self) -> (r: String)
        ensures
            r@ == self.message_spec(),
    {
        match self {
            Pdf2MdError::FileNotFound { path } => {
                let mut r = "PDF file not found: '".to_owned();
                r.append(path.as_str());
                r.append("'\nCheck the path exists and is readable.");
                r
            },
            Pdf2MdError::PermissionDenied { path } => {
                let mut r = "Permission denied reading '".to_owned();
                r.append(path.as_str());
                r.append("'\nTry: chmod +r \"");
                r.append(path.as_str());
                r.append("\"");
                r
            },
            Pdf2MdError::InvalidInput { input } => {
                let mut r = "Invalid input '".to_owned();
                r.append(input.as_str());
                r.append("': not a file path or a valid HTTP/HTTPS URL");
                r
            },
            Pdf2MdError::DownloadFailed { url, reason } => {
                let mut r = "Failed to download '".to_owned();
                r.append(url.as_str());
                r.append("': ");
                r.append(reason.as_str());
                r.append("\nCheck your internet connection.");
                r
            },
            Pdf2MdError::DownloadTimeout { url, secs } => {
                let mut r = "Download timed out after ".to_owned();
                r.append(u64_decimal(*secs).as_str());
                r.append("s for '");
                r.append(url.as_str());
                r.append("'\nIncrease --download-timeout.");
                r
            },
            Pdf2MdError::NotAPdf { path, magic } => {
                let mut r = "File is not a valid PDF: '".to_owned();
                r.append(path.as_str());
                r.append("'\nFirst bytes: [");
                r.append(usize_decimal(magic[0] as usize).as_str());
                r.append(", ");
                r.append(usize_decimal(magic[1] as usize).as_str());
                r.append(", ");
                r.append(usize_decimal(magic[2] as usize).as_str());
                r.append(", ");
                r.append(usize_decimal(magic[3] as usize).as_str());
                r.append("]");
                proof {
                    reveal_strlit("'\nFirst bytes: [");
                    reveal_strlit("'\nFirst bytes: ");
                    reveal_strlit("[");
                }
                assert(r@ =~= self.message_spec());
                r
            },
            Pdf2MdError::CorruptPdf { path, detail } => {
                let mut r = "PDF '".to_owned();
                r.append(path.as_str());
                r.append("' is corrupt: ");
                r.append(detail.as_str());
                r
            },
            Pdf2MdError::PasswordRequired { path } => {
                let mut r = "PDF '".to_owned();
                r.append(path.as_str());
                r.append("' is encrypted and requires a password.");
                r
            },
            Pdf2MdError::WrongPassword { path } => {
                let mut r = "Wrong password for PDF '".to_owned();
                r.append(path.as_str());
                r.append("'");
                r
            },
            Pdf2MdError::PageOutOfRange { page, total } => {
                let mut r = "Page ".to_owned();
                r.append(usize_decimal(*page).as_str());
                r.append(" is out of range (document has ");
                r.append(usize_decimal(*total).as_str());
                r.append(" pages)");
                r
            },
            Pdf2MdError::RasterisationFailed { page, detail } => {
                let mut r = "Rasterisation failed for page ".to_owned();
                r.append(usize_decimal(*page).as_str());
                r.append(": ");
                r.append(detail.as_str());
                r
            },
            Pdf2MdError::ProviderNotConfigured { provider, hint } => {
                let mut r = "LLM provider '".to_owned();
                r.append(provider.as_str());
                r.append("' is not configured.\n");
                r.append(hint.as_str());
                r
            },
            Pdf2MdError::LlmApiError { message } => {
                let mut r = "LLM API error: ".to_owned();
                r.append(message.as_str());
                r
            },
            Pdf2MdError::AllPagesFailed { total, retries, first_error } => {
                let mut r = "All ".to_owned();
                r.append(usize_decimal(*total).as_str());
                r.append(" pages failed after ");
                r.append(u64_decimal(*retries as u64).as_str());
                r.append(" retries each.\nFirst error: ");
                r.append(first_error.as_str());
                r
            },
            Pdf2MdError::PartialFailure { success, failed, total } => {
                let mut r = usize_decimal(*failed);
                r.append("/");
                r.append(usize_decimal(*total).as_str());
                r.append(" pages failed during conversion");
                r
            },
            Pdf2MdError::RateLimitExceeded { provider, retry_after_secs } => {
                let mut r = "Rate limit exceeded for provider '".to_owned();
                r.append(provider.as_str());
                r.append("'");
                r
            },
            Pdf2MdError::ApiTimeout { page, elapsed_ms } => {
                let mut r = "API call timed out after ".to_owned();
                r.append(u64_decimal(*elapsed_ms).as_str());
                r.append("ms on page ");
                r.append(usize_decimal(*page).as_str());
                r
            },
            Pdf2MdError::AuthError { provider, detail } => {
                let mut r = "Authentication error from provider '".to_owned();
                r.append(provider.as_str());
                r.append("': ");
                r.append(detail.as_str());
                r
            },
            Pdf2MdError::OutputWriteFailed { path, detail } => {
                let mut r = "Failed to write output file '".to_owned();
                r.append(path.as_str());
                r.append("': ");
                r.append(detail.as_str());
                r
            },
            Pdf2MdError::InvalidConfig(m) => {
                let mut r = "Invalid configuration: ".to_owned();
                r.append(m.as_str());
                r
            },
            Pdf2MdError::PdfiumBindingFailed(m) => {
                let mut r = "Failed to bind to pdfium library: ".to_owned();
                r.append(m.as_str());
                r
            },
            Pdf2MdError::Internal(m) => {
                let mut r = "Internal error: ".to_owned();
                r.append(m.as_str());
                r
            },
        }
    }
}

/// A non-fatal error of one page, kept in its result.
#[derive(Debug, Clone, PartialEq, Eq)]
pub enum PageError {
    /// The page could not be rasterised.
    RenderFailed { page: usize, detail: String },
    /// Every model call for the page failed.
    LlmFailed { page: usize, retries: u8, detail: String },
    /// The model call timed out.
    Timeout { page: usize, secs: u64 },
}

impl PageError {
    /// The human-readable description of the error.
    pub open spec fn message_spec(&self) -> Seq<char> {
        match self {
            PageError::RenderFailed { page, detail } => "Page "@ + decimal(*page as nat)
                + ": rasterisation failed: "@ + detail@,
            PageError::LlmFailed { page, retries, detail } => "Page "@ + decimal(*page as nat)
                + ": LLM call failed after "@ + decimal(*retries as nat) + " retries: "@ + detail@,
            PageError::Timeout { page, secs } => "Page "@ + decimal(*page as nat)
                + ": LLM call timed out after "@ + decimal(*secs as nat) + "s"@,
        }
    }

    /// The human-readable description of the error.
    pub fn message(&self) -> (r: String)
        ensures
            r@ == self.message_spec(),
    {
        let mut r = "Page ".to_owned();
        match self {
            PageError::RenderFailed { page, detail } => {
                r.append(usize_decimal(*page).as_str());
                r.append(": rasterisation failed: ");
                r.append(detail.as_str());
            },
            PageError::LlmFailed { page, retries, detail } => {
                r.append(usize_decimal(*page).as_str());
                r.append(": LLM call failed after ");
                r.append(usize_decimal(*retries as usize).as_str());
                r.append(" retries: ");
                r.append(detail.as_str());
            },
            PageError::Timeout { page, secs } => {
                r.append(usize_decimal(*page).as_str());
                r.append(": LLM call timed out after ");
                r.append(u64_decimal(*secs).as_str());
                r.append("s");
            },
        }
        r
    }
}

} // verus!
