use vstd::prelude::*;

use crate::check_email::{is_valid_email, valid_email};
use crate::check_pdf::{detect_pdf, inferred_mime_type, PDF_MIME};
use crate::templates::UploadTemplate;
use crate::text::str_equal;

verus! {

/// The most files one upload may hold.
pub const MAX_FILES: usize = 10;

/// The largest file one upload may hold, in bytes.
pub const MAX_FILE_BYTES: usize = 10485760;

/// The directory into which accepted files are written.
pub const UPLOAD_DIR: &'static str = "./upload/";

/// One uploaded file: the name the browser gave it, if any, and its bytes.
pub struct UploadedFile {
    pub file_name: Option<String>,
    pub data: Vec<u8>,
}

/// Everything the upload form sends: the files, the e-mail field and the
/// terms-of-use checkbox (each field absent when the browser left it out).
pub struct UploadForm {
    pub files: Vec<UploadedFile>,
    pub email: Option<String>,
    pub checkbox: Option<String>,
}

/// Why an upload is turned down.
#[derive(Debug, Clone, Copy, PartialEq, Eq, Structural)]
pub enum UploadError {
    NoFile,
    TooManyFiles,
    FileTooBig,
    NotPdf,
    NoEmail,
    InvalidEmail,
    TermsNotAccepted,
}

/// How an upload ends: turned down, stopped at a file without a name (the
/// server gives up on the request), or accepted.
#[derive(Debug, Clone, Copy, PartialEq, Eq, Structural)]
pub enum UploadOutcome {
    Rejected(UploadError),
    MissingFileName,
    Accepted,
}

/// A file to store: its index in the form and the path to write it to.
pub struct FileWrite {
    pub index: usize,
    pub path: String,
}

/// What the server does with an upload: the files it stores, in order (each
/// is stored before the next file is looked at), and how the request ends.
pub struct UploadPlan {
    pub writes: Vec<FileWrite>,
    pub outcome: UploadOutcome,
}

/// What a single file fails on, checked in this order: a missing name, its
/// size, its kind.
#[derive(Debug, Clone, Copy, PartialEq, Eq, Structural)]
pub enum FileVerdict {
    Stored,
    MissingName,
    TooBig,
    NotPdf,
}

/// The text shown for each reason.
pub open spec fn error_message(e: UploadError) -> Seq<char> {
    match e {
        UploadError::NoFile => "You must upload a file"@,
        UploadError::TooManyFiles => "To many files (max: 10)"@,
        UploadError::FileTooBig => "file is to big"@,
        UploadError::NotPdf => "file must be a pdf"@,
        UploadError::NoEmail => "no email suplied"@,
        UploadError::InvalidEmail => "email must be a valid format"@,
        UploadError::TermsNotAccepted => "you need to agree to the Nutzerbedingungen"@,
    }
}

/// The verdict on one file.
pub open spec fn file_verdict(f: UploadedFile) -> FileVerdict {
    if f.file_name is None {
        FileVerdict::MissingName
    } else if f.data@.len() > MAX_FILE_BYTES {
        FileVerdict::TooBig
    } else if inferred_mime_type(f.data@) != Some(PDF_MIME@) {
        FileVerdict::NotPdf
    } else {
        FileVerdict::Stored
    }
}

/// The first file that is not stored, with its verdict, if any.
pub open spec fn first_bad_file(files: Seq<UploadedFile>) -> Option<(int, FileVerdict)>
    decreases files.len(),
{
    if files.len() == 0 {
        None
    } else {
        match first_bad_file(files.drop_last()) {
            Some(b) => Some(b),
            None => if file_verdict(files.last()) != FileVerdict::Stored {
                Some((files.len() - 1, file_verdict(files.last())))
            } else {
                None
            },
        }
    }
}

/// The path a named file is stored under.
pub open spec fn upload_path(name: Seq<char>) -> Seq<char> {
    UPLOAD_DIR@ + name
}

/// The number of files that are stored.
pub open spec fn stored_count(files: Seq<UploadedFile>) -> int {
    if files.len() == 0 || files.len() > MAX_FILES {
        0
    } else {
        match first_bad_file(files) {
            Some(b) => b.0,
            None => files.len() as int,
        }
    }
}

/// The verdict on the e-mail field and the checkbox, once the files are stored.
pub open spec fn fields_outcome(email: Option<String>, checkbox: Option<String>) -> UploadOutcome {
    match email {
        None => UploadOutcome::Rejected(UploadError::NoEmail),
        Some(e) => if e@.len() == 0 {
            UploadOutcome::Rejected(UploadError::NoEmail)
        } else if !valid_email(e@) {
            UploadOutcome::Rejected(UploadError::InvalidEmail)
        } else if !(checkbox matches Some(c) && c@ == "on"@) {
            UploadOutcome::Rejected(UploadError::TermsNotAccepted)
        } else {
            UploadOutcome::Accepted
        },
    }
}

/// How an upload ends.
pub open spec fn upload_outcome(form: UploadForm) -> UploadOutcome {
    let files = form.files@;
    if files.len() == 0 {
        UploadOutcome::Rejected(UploadError::NoFile)
    } else if files.len() > MAX_FILES {
        UploadOutcome::Rejected(UploadError::TooManyFiles)
    } else {
        match first_bad_file(files) {
            Some(b) => match b.1 {
                FileVerdict::MissingName => UploadOutcome::MissingFileName,
                FileVerdict::TooBig => UploadOutcome::Rejected(UploadError::FileTooBig),
                _ => UploadOutcome::Rejected(UploadError::NotPdf),
            },
            None => fields_outcome(form.email, form.checkbox),
        }
    }
}

/// The writes of a plan are the first `count` files, each to its path.
pub open spec fn writes_match(writes: Seq<FileWrite>, files: Seq<UploadedFile>, count: int) -> bool {
    &&& writes.len() == count
    &&& forall|i: int|
        0 <= i < count ==> (#[trigger] writes[i]).index == i && files[i].file_name is Some
            && writes[i].path@ == upload_path(files[i].file_name.unwrap()@)
}

impl UploadError {
    /// The text shown for the reason.
    pub fn message(&self) -> (msg: &'static str)
        ensures
            msg@ == error_message(*self),
    {
        match self {
            UploadError::NoFile => "You must upload a file",
            UploadError::TooManyFiles => "To many files (max: 10)",
            UploadError::FileTooBig => "file is to big",
            UploadError::NotPdf => "file must be a pdf",
            UploadError::NoEmail => "no email suplied",
            UploadError::InvalidEmail => "email must be a valid format",
            UploadError::TermsNotAccepted => "you need to agree to the Nutzerbedingungen",
        }
    }
}

/// The verdict on one file.
pub fn check_file(f: &UploadedFile) -> (v: FileVerdict)
    ensures
        v == file_verdict(*f),
{
    if f.file_name.is_none() {
        FileVerdict::MissingName
    } else if f.data.len() > MAX_FILE_BYTES {
        FileVerdict::TooBig
    } else if !detect_pdf(f.data.as_slice()) {
        FileVerdict::NotPdf
    } else {
        FileVerdict::Stored
    }
}

/// The verdict on the e-mail field and the checkbox.
pub fn check_fields(email: &Option<String>, checkbox: &Option<String>) -> (outcome: UploadOutcome)
    ensures
        outcome == fields_outcome(*email, *checkbox),
{
    match email {
        None => UploadOutcome::Rejected(UploadError::NoEmail),
        Some(e) => {
            if e.as_str().is_empty() {
                UploadOutcome::Rejected(UploadError::NoEmail)
            } else if !is_valid_email(e.as_str()) {
                UploadOutcome::Rejected(UploadError::InvalidEmail)
            } else {
                let agreed = match checkbox {
                    Some(c) => str_equal(c.as_str(), "on"),
                    None => false,
                };
                if !agreed {
                    UploadOutcome::Rejected(UploadError::TermsNotAccepted)
                } else {
                    UploadOutcome::Accepted
                }
            }
        },
    }
}

/// Decides what the server does with an upload: whether there are between one
/// and ten files, which files it stores (in order, each named, at most 10 MiB
/// and a PDF, stopping at the first that is not), and how the request ends.
pub fn plan_upload(form: &UploadForm) -> (plan: UploadPlan)
    ensures
        plan.outcome == upload_outcome(*form),
        writes_match(plan.writes@, form.files@, stored_count(form.files@)),
{
    let n = form.files.len();
    let mut writes: Vec<FileWrite> = Vec::new();
    if n == 0 {
        return UploadPlan { writes, outcome: UploadOutcome::Rejected(UploadError::NoFile) };
    }
    if n > MAX_FILES {
        return UploadPlan { writes, outcome: UploadOutcome::Rejected(UploadError::TooManyFiles) };
    }
    let ghost files = form.files@;
    let mut i: usize = 0;
    while i < n
        invariant
            n == files.len(),
            files == form.files@,
            0 < n <= MAX_FILES,
            i <= n,
            first_bad_file(files.take(i as int)) is None,
            writes_match(writes@, files, i as int),
        decreases n - i,
    {
        let f = &form.files[i];
        let ghost prefix = files.take(i as int);
        let ghost next = files.take(i + 1);
        assert(next.drop_last() =~= prefix);
        assert(next.last() == *f);
        let verdict = check_file(f);
        match verdict {
            FileVerdict::Stored => {},
            _ => {
                assert(first_bad_file(next) == Some((i as int, verdict)));
                proof {
                    lemma_first_bad_extends(files, i as int + 1);
                }
                let outcome = match verdict {
                    FileVerdict::MissingName => UploadOutcome::MissingFileName,
                    FileVerdict::TooBig => UploadOutcome::Rejected(UploadError::FileTooBig),
                    _ => UploadOutcome::Rejected(UploadError::NotPdf),
                };
                return UploadPlan { writes, outcome };
            },
        }
        let name = f.file_name.as_ref().unwrap();
        let mut path = String::from_str(UPLOAD_DIR);
        path.append(name.as_str());
        let ghost before = writes@;
        writes.push(FileWrite { index: i, path });
        assert(first_bad_file(next) is None);
        i = i + 1;
        assert(writes_match(writes@, files, i as int)) by {
            assert forall|t: int| 0 <= t < i implies (#[trigger] writes@[t]).index == t
                && files[t].file_name is Some && writes@[t].path@ == upload_path(
                files[t].file_name.unwrap()@,
            ) by {
                if t < i - 1 {
                    assert(writes@[t] == before[t]);
                }
            }
        }
    }
    assert(files.take(n as int) =~= files);
    let outcome = check_fields(&form.email, &form.checkbox);
    UploadPlan { writes, outcome }
}

/// Once some prefix holds a bad file, every longer prefix reports the same one.
proof fn lemma_first_bad_extends(files: Seq<UploadedFile>, k: int)
    requires
        0 <= k <= files.len(),
        first_bad_file(files.take(k)) is Some,
    ensures
        first_bad_file(files) == first_bad_file(files.take(k)),
    decreases files.len() - k,
{
    if k < files.len() {
        let next = files.take(k + 1);
        assert(next.drop_last() =~= files.take(k));
        lemma_first_bad_extends(files, k + 1);
    } else {
        assert(files.take(k) =~= files);
    }
}

/// The text of a version 4 UUID as `uuid` renders it: 36 characters, hyphens
/// at positions 8, 13, 18 and 23, lower-case hex digits elsewhere, the version
/// digit `4` at position 14 and one of `8`, `9`, `a`, `b` at position 19.
pub open spec fn is_uuid_v4_text(s: Seq<char>) -> bool {
    &&& s.len() == 36
    &&& forall|i: int|
        0 <= i < 36 ==> if i == 8 || i == 13 || i == 18 || i == 23 {
            #[trigger] s[i] == '-'
        } else {
            ('0' <= s[i] <= '9') || ('a' <= s[i] <= 'f')
        }
    &&& s[14] == '4'
    &&& s[19] == '8' || s[19] == '9' || s[19] == 'a' || s[19] == 'b'
}

/// Draws a random version 4 UUID with `uuid::Uuid::new_v4` and renders it with
/// `to_string`. Claimed: the text has the shape of a hyphenated lower-case
/// version 4 UUID (the version and variant bits are fixed by `new_v4`, the
/// layout by `Uuid`'s `Display`). Nothing is claimed of the random digits.
#[verifier::external_body]
fn new_uuid_v4_text() -> (token: String)
    ensures
        is_uuid_v4_text(token@),
{
    uuid::Uuid::new_v4().to_string()
}

/// The answer to an upload that ended with `outcome`; nothing for an upload
/// that stopped at a file without a name.
pub open spec fn upload_response_ok(outcome: UploadOutcome, resp: UploadTemplate) -> bool {
    match outcome {
        UploadOutcome::Rejected(e) => resp.error@ == error_message(e) && resp.token@.len() == 0,
        UploadOutcome::Accepted => resp.error@.len() == 0 && is_uuid_v4_text(resp.token@),
        UploadOutcome::MissingFileName => false,
    }
}

/// The page that answers an upload, given the token drawn for it: a
/// turned-down upload shows the reason and no token; an accepted one shows no
/// error and the given token. Gives nothing for an upload that stopped at a
/// file without a name.
pub fn upload_page(outcome: UploadOutcome, token: String) -> (resp: Option<UploadTemplate<'static>>)
    ensures
        resp is None <==> outcome == UploadOutcome::MissingFileName,
        resp matches Some(r) ==> match outcome {
            UploadOutcome::Rejected(e) => r.error@ == error_message(e) && r.token@.len() == 0,
            UploadOutcome::Accepted => r.error@.len() == 0 && r.token@ == token@,
            UploadOutcome::MissingFileName => false,
        },
{
    match outcome {
        UploadOutcome::Rejected(e) => Some(UploadTemplate { error: e.message(), token: String::new() }),
        UploadOutcome::Accepted => {
            let none = "";
            proof {
                reveal_strlit("");
            }
            Some(UploadTemplate { error: none, token })
        },
        UploadOutcome::MissingFileName => None,
    }
}

/// Builds the page that answers an upload: a turned-down upload shows the
/// reason and no token; an accepted one shows no error and a freshly drawn
/// token. Gives nothing for an upload that stopped at a file without a name.
pub fn respond_to_upload(outcome: UploadOutcome) -> (resp: Option<UploadTemplate<'static>>)
    ensures
        resp is None <==> outcome == UploadOutcome::MissingFileName,
        resp matches Some(r) ==> upload_response_ok(outcome, r),
{
    let token = if outcome == UploadOutcome::Accepted {
        new_uuid_v4_text()
    } else {
        String::new()
    };
    upload_page(outcome, token)
}

/// Every reason for turning an upload down comes with a message.
pub proof fn lemma_error_messages_nonempty(e: UploadError)
    ensures
        error_message(e).len() > 0,
{
    reveal_strlit("You must upload a file");
    reveal_strlit("To many files (max: 10)");
    reveal_strlit("file is to big");
    reveal_strlit("file must be a pdf");
    reveal_strlit("no email suplied");
    reveal_strlit("email must be a valid format");
    reveal_strlit("you need to agree to the Nutzerbedingungen");
}

/// An upload answer shows an error exactly when it carries no token.
pub proof fn lemma_response_error_xor_token(outcome: UploadOutcome, resp: UploadTemplate)
    requires
        upload_response_ok(outcome, resp),
    ensures
        resp.error@.len() == 0 <==> resp.token@.len() > 0,
{
    if let UploadOutcome::Rejected(e) = outcome {
        lemma_error_messages_nonempty(e);
    }
}

/// The first bad file is the first file whose verdict is not "stored".
proof fn lemma_first_bad_file(files: Seq<UploadedFile>)
    ensures
        match first_bad_file(files) {
            Some(b) => 0 <= b.0 < files.len() && file_verdict(files[b.0]) == b.1 && b.1
                != FileVerdict::Stored && forall|i: int|
                0 <= i < b.0 ==> #[trigger] file_verdict(files[i]) == FileVerdict::Stored,
            None => forall|i: int|
                0 <= i < files.len() ==> #[trigger] file_verdict(files[i]) == FileVerdict::Stored,
        },
    decreases files.len(),
{
    if files.len() > 0 {
        let p = files.drop_last();
        lemma_first_bad_file(p);
        match first_bad_file(p) {
            Some(b) => {
                assert forall|i: int| 0 <= i < b.0 implies #[trigger] file_verdict(files[i])
                    == FileVerdict::Stored by {
                    assert(files[i] == p[i]);
                }
                assert(files[b.0] == p[b.0]);
            },
            None => {
                assert forall|i: int| 0 <= i < p.len() implies #[trigger] file_verdict(files[i])
                    == FileVerdict::Stored by {
                    assert(files[i] == p[i]);
                }
            },
        }
    }
}

/// Only checked files are stored: every file that an upload stores is named,
/// at most 10 MiB and recognised as a PDF, and an upload stores at most ten
/// files, the first ones of the form, in order.
pub proof fn lemma_stored_files_are_checked(form: UploadForm, i: int)
    requires
        0 <= i < stored_count(form.files@),
    ensures
        stored_count(form.files@) <= MAX_FILES,
        form.files@[i].file_name is Some,
        form.files@[i].data@.len() <= MAX_FILE_BYTES,
        inferred_mime_type(form.files@[i].data@) == Some(PDF_MIME@),
{
    lemma_first_bad_file(form.files@);
    assert(file_verdict(form.files@[i]) == FileVerdict::Stored);
}

/// An upload is accepted exactly when it holds between one and ten files that
/// are all stored, a well-formed e-mail address and the ticked checkbox; then
/// every file is stored.
pub proof fn lemma_accepted_upload(form: UploadForm)
    ensures
        upload_outcome(form) == UploadOutcome::Accepted <==> {
            &&& 1 <= form.files@.len() <= MAX_FILES
            &&& forall|i: int|
                0 <= i < form.files@.len() ==> #[trigger] file_verdict(form.files@[i])
                    == FileVerdict::Stored
            &&& form.email matches Some(e) && valid_email(e@)
            &&& form.checkbox matches Some(c) && c@ == "on"@
        },
        upload_outcome(form) == UploadOutcome::Accepted ==> stored_count(form.files@)
            == form.files@.len(),
{
    let files = form.files@;
    lemma_first_bad_file(files);
    if 1 <= files.len() <= MAX_FILES {
        if let Some(b) = first_bad_file(files) {
            assert(file_verdict(files[b.0]) != FileVerdict::Stored);
        }
    }
}

/// Every named file of at most `MAX_FILE_BYTES` bytes that is recognised as
/// a PDF is stored, whatever its name says.
pub proof fn lemma_good_file_stored(f: UploadedFile)
    requires
        f.file_name is Some,
        f.data@.len() <= MAX_FILE_BYTES,
        inferred_mime_type(f.data@) == Some(PDF_MIME@),
    ensures
        file_verdict(f) == FileVerdict::Stored,
{
}

/// The verdict on a named file depends on its bytes alone: two named files
/// with the same bytes get the same verdict, whatever their names.
pub proof fn lemma_verdict_ignores_name(f: UploadedFile, g: UploadedFile)
    requires
        f.file_name is Some,
        g.file_name is Some,
        f.data@ == g.data@,
    ensures
        file_verdict(f) == file_verdict(g),
{
}

/// An upload of one to ten named files, each at most `MAX_FILE_BYTES` bytes
/// and recognised as a PDF, with a well-formed address and the ticked
/// checkbox, is accepted, and every one of its files is stored, each under
/// `./upload/` followed by its name.
pub proof fn lemma_good_upload_accepted(form: UploadForm)
    requires
        1 <= form.files@.len() <= MAX_FILES,
        forall|i: int|
            0 <= i < form.files@.len() ==> (#[trigger] form.files@[i]).file_name is Some
                && form.files@[i].data@.len() <= MAX_FILE_BYTES && inferred_mime_type(
                form.files@[i].data@,
            ) == Some(PDF_MIME@),
        form.email matches Some(e) && valid_email(e@),
        form.checkbox matches Some(c) && c@ == seq!['o', 'n'],
    ensures
        upload_outcome(form) == UploadOutcome::Accepted,
        stored_count(form.files@) == form.files@.len(),
{
    let files = form.files@;
    lemma_first_bad_file(files);
    if let Some(b) = first_bad_file(files) {
        assert(file_verdict(files[b.0]) == FileVerdict::Stored);
    }
    reveal_strlit("on");
    if let Some(e) = form.email {
        assert(e@.len() > 0) by {
            let i = choose|i: int|
                #![trigger e@[i]]
                crate::check_email::sole_at_sign(e@, i) && i > 0;
        }
    }
    if let Some(c) = form.checkbox {
        assert(c@ =~= "on"@);
    }
}

} // verus!
