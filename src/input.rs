//! Checks on the input before any rendering.
use vstd::prelude::*;
use crate::error::Pdf2MdError;
use crate::text::{contains_seq, has_prefix, str_contains, str_starts_with};

verus! {

/// The input names an HTTP(S) URL.
pub open spec fn url_spec(s: Seq<char>) -> bool {
    has_prefix(s, "http://"@) || has_prefix(s, "https://"@)
}

/// Whether the input looks like an HTTP or HTTPS URL.
pub fn is_url(input: &str) -> (r: bool)
    ensures
        r == url_spec(input@),
{
    str_starts_with(input, "http://") || str_starts_with(input, "https://")
}

/// The four bytes every PDF starts with: `%PDF`.
pub open spec fn pdf_magic() -> Seq<u8> {
    seq![37u8, 80u8, 68u8, 70u8]
}

/// Rejects a file whose first four bytes are not `%PDF`; a file shorter than
/// four bytes is left to the PDF engine.
pub fn check_pdf_magic(path: &str, head: &[u8]) -> (r: Result<(), Pdf2MdError>)
    ensures
        r is Err <==> (head@.len() >= 4 && head@.subrange(0, 4) != pdf_magic()),
        r matches Err(e) ==> (e matches Pdf2MdError::NotAPdf { path: p, magic } && p@ == path@
            && magic@ == head@.subrange(0, 4)),
{
    if head.len() >= 4 {
        let bad = head[0] != 37u8 || head[1] != 80u8 || head[2] != 68u8 || head[3] != 70u8;
        if bad {
            let magic: [u8; 4] = [head[0], head[1], head[2], head[3]];
            assert(magic@ =~= head@.subrange(0, 4));
            return Err(Pdf2MdError::NotAPdf { path: path.to_owned(), magic });
        }
        assert(head@.subrange(0, 4) =~= pdf_magic());
    }
    Ok(())
}

/// The engine's error text speaks of a password.
pub open spec fn mentions_password(detail: Seq<char>) -> bool {
    contains_seq(detail, "Password"@) || contains_seq(detail, "password"@)
}

/// Classifies a failure to open a PDF: a password problem is `WrongPassword`
/// when one was given and `PasswordRequired` otherwise; anything else is
/// `CorruptPdf` carrying the engine's text.
pub fn map_pdf_open_error(detail: &str, path: &str, has_password: bool) -> (r: Pdf2MdError)
    ensures
        mentions_password(detail@) && has_password ==> (r matches Pdf2MdError::WrongPassword {
            path: p,
        } && p@ == path@),
        mentions_password(detail@) && !has_password ==> (r matches Pdf2MdError::PasswordRequired {
            path: p,
        } && p@ == path@),
        !mentions_password(detail@) ==> (r matches Pdf2MdError::CorruptPdf { path: p, detail: d }
            && p@ == path@ && d@ == detail@),
{
    if str_contains(detail, "Password") || str_contains(detail, "password") {
        if has_password {
            Pdf2MdError::WrongPassword { path: path.to_owned() }
        } else {
            Pdf2MdError::PasswordRequired { path: path.to_owned() }
        }
    } else {
        Pdf2MdError::CorruptPdf { path: path.to_owned(), detail: detail.to_owned() }
    }
}

} // verus!
