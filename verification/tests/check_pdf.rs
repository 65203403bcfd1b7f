use ubpa_hermes::check_pdf::{detect_pdf, is_pdf_mime};

#[test]
fn recognises_pdf_bytes() {
    let data = b"%PDF-1.7\n%\xe2\xe3\xcf\xd3\n1 0 obj\n<<>>\nendobj\n";
    assert!(detect_pdf(data));
}

#[test]
fn rejects_other_kinds() {
    let png = [0x89u8, 0x50, 0x4E, 0x47, 0x0D, 0x0A, 0x1A, 0x0A, 0, 0, 0, 0];
    assert!(!detect_pdf(&png));
    assert!(!detect_pdf(b"just some text"));
    assert!(!detect_pdf(b""));
    assert!(!detect_pdf(b"%PD"));
    assert!(detect_pdf(b"%PDF"));
}

#[test]
fn compares_mime_types() {
    assert!(is_pdf_mime(Some("application/pdf")));
    assert!(!is_pdf_mime(Some("image/png")));
    assert!(!is_pdf_mime(None));
}

#[test]
fn pdf_verdict_needs_the_signature() {
    assert!(!detect_pdf(b"x%PDF-1.4"));
    assert!(detect_pdf(b"%PDF-"));
}
