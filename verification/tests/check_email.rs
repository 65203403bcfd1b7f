use ubpa_hermes::check_email::is_valid_email;

#[test]
fn accepts_plain_address() {
    assert!(is_valid_email("jane.doe@example.com"));
    assert!(is_valid_email("a@b.c"));
}

#[test]
fn rejects_missing_or_repeated_at() {
    assert!(!is_valid_email("jane.example.com"));
    assert!(!is_valid_email("jane@doe@example.com"));
    assert!(!is_valid_email(""));
}

#[test]
fn rejects_empty_parts() {
    assert!(!is_valid_email("@example.com"));
    assert!(!is_valid_email("jane@"));
}

#[test]
fn rejects_bad_domain_dots() {
    assert!(!is_valid_email("jane@examplecom"));
    assert!(!is_valid_email("jane@.example.com"));
    assert!(!is_valid_email("jane@example.com."));
}

#[test]
fn rejects_spaces() {
    assert!(!is_valid_email("jane doe@example.com"));
    assert!(!is_valid_email("jane@example.com "));
}

#[test]
fn accepts_non_ascii_characters() {
    assert!(is_valid_email("jürgen@bücher.de"));
}
