use edgequake_pdf2md::error::Pdf2MdError;
use edgequake_pdf2md::input::{check_pdf_magic, is_url, map_pdf_open_error};

#[test]
fn test_is_url() {
    assert!(is_url("https://example.com/doc.pdf"));
    assert!(is_url("http://example.com/doc.pdf"));
    assert!(!is_url("/tmp/doc.pdf"));
    assert!(!is_url("doc.pdf"));
    assert!(!is_url(""));
}

#[test]
fn map_pdf_open_error_password_required() {
    let err = map_pdf_open_error("PdfiumError::PasswordRequired", "/test.pdf", false);
    match err {
        Pdf2MdError::PasswordRequired { path } => {
            assert_eq!(path, "/test.pdf");
        }
        other => panic!("expected PasswordRequired, got {other:?}"),
    }
}

#[test]
fn map_pdf_open_error_wrong_password() {
    let err = map_pdf_open_error("PdfiumError::IncorrectPassword", "/test.pdf", true);
    match err {
        Pdf2MdError::WrongPassword { path } => {
            assert_eq!(path, "/test.pdf");
        }
        other => panic!("expected WrongPassword, got {other:?}"),
    }
}

#[test]
fn map_pdf_open_error_corrupt() {
    let err = map_pdf_open_error("SomeOtherError", "/bad.pdf", false);
    match err {
        Pdf2MdError::CorruptPdf { path, detail } => {
            assert_eq!(path, "/bad.pdf");
            assert!(detail.contains("SomeOtherError"));
        }
        other => panic!("expected CorruptPdf, got {other:?}"),
    }
}

#[test]
fn pdf_magic_check() {
    assert!(check_pdf_magic("a.pdf", b"%PDF-1.7").is_ok());
    assert!(check_pdf_magic("a.pdf", b"%P").is_ok());
    match check_pdf_magic("a.txt", b"hello") {
        Err(Pdf2MdError::NotAPdf { path, magic }) => {
            assert_eq!(path, "a.txt");
            assert_eq!(&magic, b"hell");
        }
        other => panic!("expected NotAPdf, got {other:?}"),
    }
}
