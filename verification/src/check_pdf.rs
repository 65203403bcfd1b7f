use vstd::prelude::*;

use crate::text::str_equal;

verus! {

/// The MIME type that marks a PDF document.
pub const PDF_MIME: &'static str = "application/pdf";

/// What `infer::get` makes of a buffer: the MIME type of the first of its
/// built-in matchers that accepts the bytes, or nothing when none does.
pub uninterp spec fn inferred_mime_type(data: Seq<u8>) -> Option<Seq<char>>;

/// The bytes begin with the PDF signature `%PDF` and hold more than it.
pub open spec fn has_pdf_signature(data: Seq<u8>) -> bool {
    &&& data.len() > 3
    &&& data[0] == 0x25
    &&& data[1] == 0x50
    &&& data[2] == 0x44
    &&& data[3] == 0x46
}

/// Calls `infer::get` and keeps the MIME type of the kind it finds.
/// Claimed: the result is `inferred_mime_type` of the bytes; `infer::get`
/// walks a fixed table of matchers, so it depends on the bytes alone. The
/// only entry of that table with the PDF type is `matchers::archive::is_pdf`,
/// which accepts exactly the buffers longer than 3 bytes that begin with
/// `%PDF`; so a PDF result means the bytes carry that signature.
#[verifier::external_body]
fn infer_mime_type(data: &[u8]) -> (mime: Option<&'static str>)
    ensures
        match mime {
            Some(m) => inferred_mime_type(data@) == Some(m@),
            None => inferred_mime_type(data@) is None,
        },
        (mime matches Some(m) && m@ == PDF_MIME@) ==> has_pdf_signature(data@),
{
    match infer::get(data) {
        Some(kind) => Some(kind.mime_type()),
        None => None,
    }
}

/// Whether a detected MIME type is the PDF one.
pub fn is_pdf_mime(mime: Option<&str>) -> (pdf: bool)
    ensures
        pdf == (mime matches Some(m) && m@ == PDF_MIME@),
{
    match mime {
        Some(m) => str_equal(m, PDF_MIME),
        None => false,
    }
}

/// Whether the bytes are recognised as a PDF document.
pub fn detect_pdf(data: &[u8]) -> (pdf: bool)
    ensures
        pdf == (inferred_mime_type(data@) == Some(PDF_MIME@)),
        pdf ==> has_pdf_signature(data@),
{
    let mime = infer_mime_type(data);
    is_pdf_mime(mime)
}

} // verus!
