use ubpa_hermes::load::{
    check_fields, check_file, plan_upload, respond_to_upload, upload_page, FileVerdict, UploadError,
    UploadForm, UploadOutcome, UploadedFile, MAX_FILE_BYTES,
};

fn pdf(name: &str) -> UploadedFile {
    UploadedFile {
        file_name: Some(name.to_string()),
        data: b"%PDF-1.4\n%....\n".to_vec(),
    }
}

fn text_file(name: &str) -> UploadedFile {
    UploadedFile { file_name: Some(name.to_string()), data: b"hello world".to_vec() }
}

fn form(files: Vec<UploadedFile>, email: Option<&str>, checkbox: Option<&str>) -> UploadForm {
    UploadForm {
        files,
        email: email.map(|s| s.to_string()),
        checkbox: checkbox.map(|s| s.to_string()),
    }
}

#[test]
fn accepts_good_upload() {
    let f = form(vec![pdf("cv.pdf"), pdf("letter.pdf")], Some("jane@example.com"), Some("on"));
    let plan = plan_upload(&f);
    assert_eq!(plan.outcome, UploadOutcome::Accepted);
    assert_eq!(plan.writes.len(), 2);
    assert_eq!(plan.writes[0].index, 0);
    assert_eq!(plan.writes[0].path, "./upload/cv.pdf");
    assert_eq!(plan.writes[1].index, 1);
    assert_eq!(plan.writes[1].path, "./upload/letter.pdf");
}

#[test]
fn rejects_no_files() {
    let plan = plan_upload(&form(vec![], Some("jane@example.com"), Some("on")));
    assert_eq!(plan.outcome, UploadOutcome::Rejected(UploadError::NoFile));
    assert!(plan.writes.is_empty());
}

#[test]
fn rejects_too_many_files() {
    let files = (0..11).map(|i| pdf(&format!("f{}.pdf", i))).collect();
    let plan = plan_upload(&form(files, Some("jane@example.com"), Some("on")));
    assert_eq!(plan.outcome, UploadOutcome::Rejected(UploadError::TooManyFiles));
    assert!(plan.writes.is_empty());
    let files = (0..10).map(|i| pdf(&format!("f{}.pdf", i))).collect();
    let plan = plan_upload(&form(files, Some("jane@example.com"), Some("on")));
    assert_eq!(plan.outcome, UploadOutcome::Accepted);
    assert_eq!(plan.writes.len(), 10);
}

#[test]
fn rejects_big_file_after_storing_earlier_ones() {
    let mut big = pdf("big.pdf");
    big.data.resize(MAX_FILE_BYTES + 1, 0);
    let plan = plan_upload(&form(vec![pdf("a.pdf"), big, pdf("c.pdf")], Some("jane@example.com"), Some("on")));
    assert_eq!(plan.outcome, UploadOutcome::Rejected(UploadError::FileTooBig));
    assert_eq!(plan.writes.len(), 1);
    assert_eq!(plan.writes[0].path, "./upload/a.pdf");
}

#[test]
fn file_of_exactly_the_limit_is_fine() {
    let mut f = pdf("edge.pdf");
    f.data.resize(MAX_FILE_BYTES, 0);
    assert_eq!(check_file(&f), FileVerdict::Stored);
}

#[test]
fn rejects_non_pdf() {
    let plan = plan_upload(&form(vec![text_file("a.txt")], Some("jane@example.com"), Some("on")));
    assert_eq!(plan.outcome, UploadOutcome::Rejected(UploadError::NotPdf));
    assert!(plan.writes.is_empty());
}

#[test]
fn stops_at_nameless_file() {
    let nameless = UploadedFile { file_name: None, data: b"%PDF-1.4\n".to_vec() };
    let plan = plan_upload(&form(vec![pdf("a.pdf"), nameless], Some("jane@example.com"), Some("on")));
    assert_eq!(plan.outcome, UploadOutcome::MissingFileName);
    assert_eq!(plan.writes.len(), 1);
    assert!(respond_to_upload(plan.outcome).is_none());
}

#[test]
fn rejects_missing_or_empty_email() {
    let plan = plan_upload(&form(vec![pdf("a.pdf")], None, Some("on")));
    assert_eq!(plan.outcome, UploadOutcome::Rejected(UploadError::NoEmail));
    assert_eq!(plan.writes.len(), 1);
    let plan = plan_upload(&form(vec![pdf("a.pdf")], Some(""), Some("on")));
    assert_eq!(plan.outcome, UploadOutcome::Rejected(UploadError::NoEmail));
}

#[test]
fn rejects_malformed_email() {
    let plan = plan_upload(&form(vec![pdf("a.pdf")], Some("jane"), Some("on")));
    assert_eq!(plan.outcome, UploadOutcome::Rejected(UploadError::InvalidEmail));
}

#[test]
fn rejects_unticked_checkbox() {
    assert_eq!(
        check_fields(&Some("jane@example.com".to_string()), &None),
        UploadOutcome::Rejected(UploadError::TermsNotAccepted)
    );
    assert_eq!(
        check_fields(&Some("jane@example.com".to_string()), &Some("off".to_string())),
        UploadOutcome::Rejected(UploadError::TermsNotAccepted)
    );
    assert_eq!(
        check_fields(&Some("jane@example.com".to_string()), &Some("on".to_string())),
        UploadOutcome::Accepted
    );
}

#[test]
fn messages_match_the_reasons() {
    assert_eq!(UploadError::NoFile.message(), "You must upload a file");
    assert_eq!(UploadError::TooManyFiles.message(), "To many files (max: 10)");
    assert_eq!(UploadError::FileTooBig.message(), "file is to big");
    assert_eq!(UploadError::NotPdf.message(), "file must be a pdf");
    assert_eq!(UploadError::NoEmail.message(), "no email suplied");
    assert_eq!(UploadError::InvalidEmail.message(), "email must be a valid format");
    assert_eq!(
        UploadError::TermsNotAccepted.message(),
        "you need to agree to the Nutzerbedingungen"
    );
}

#[test]
fn rejection_shows_reason_and_no_token() {
    let resp = respond_to_upload(UploadOutcome::Rejected(UploadError::NotPdf)).unwrap();
    assert_eq!(resp.error, "file must be a pdf");
    assert_eq!(resp.token, "");
}

#[test]
fn acceptance_shows_fresh_uuid_token() {
    let a = respond_to_upload(UploadOutcome::Accepted).unwrap();
    let b = respond_to_upload(UploadOutcome::Accepted).unwrap();
    assert_eq!(a.error, "");
    assert_eq!(a.token.len(), 36);
    let chars: Vec<char> = a.token.chars().collect();
    for (i, c) in chars.iter().enumerate() {
        if i == 8 || i == 13 || i == 18 || i == 23 {
            assert_eq!(*c, '-');
        } else {
            assert!(c.is_ascii_digit() || ('a'..='f').contains(c));
        }
    }
    assert_eq!(chars[14], '4');
    assert!(['8', '9', 'a', 'b'].contains(&chars[19]));
    assert_ne!(a.token, b.token);
}

#[test]
fn upload_page_shows_the_given_token() {
    let page = upload_page(UploadOutcome::Accepted, "tok-123".to_string()).unwrap();
    assert_eq!(page.error, "");
    assert_eq!(page.token, "tok-123");
    let page = upload_page(UploadOutcome::Rejected(UploadError::NoEmail), "tok".to_string()).unwrap();
    assert_eq!(page.error, "no email suplied");
    assert_eq!(page.token, "");
    assert!(upload_page(UploadOutcome::MissingFileName, "tok".to_string()).is_none());
}
