use ubpa_hermes::send_email::{compose_email, compose_notice, notice_text, ComposeError, EmailConfig, Notice};

fn config(sender: &str) -> EmailConfig {
    EmailConfig {
        email: sender.to_string(),
        password: "pw".to_string(),
        submit_subject: "Documents received".to_string(),
        submit: "We received your documents.".to_string(),
        removed_subject: "Application removed".to_string(),
        removed: "Your application was removed.".to_string(),
        changed_state_subject: "Application updated".to_string(),
        changed_state: "The state of your application changed.".to_string(),
    }
}

#[test]
fn picks_the_text_of_each_notice() {
    let c = config("office@example.com");
    assert_eq!(notice_text(&c, Notice::Submitted), ("Documents received", "We received your documents."));
    assert_eq!(notice_text(&c, Notice::Removed), ("Application removed", "Your application was removed."));
    assert_eq!(
        notice_text(&c, Notice::StateChanged),
        ("Application updated", "The state of your application changed.")
    );
}

#[test]
fn composes_message_for_valid_addresses() {
    let msg = compose_email(&config("office@example.com"), Notice::Removed, "jane@example.com");
    let built = msg.unwrap();
    assert_eq!(built.notice().from, "office@example.com");
    assert_eq!(built.notice().to, "jane@example.com");
    assert_eq!(built.notice().subject, "Application removed");
    assert_eq!(built.notice().body, "Your application was removed.");
    let text = String::from_utf8(built.message().formatted()).unwrap();
    assert!(text.contains("To: jane@example.com"));
    assert!(text.contains("From: office@example.com"));
    assert!(text.contains("Subject: Application removed"));
    assert!(text.contains("Your application was removed."));
}

#[test]
fn reports_bad_sender_first() {
    assert_eq!(
        compose_email(&config("not an address"), Notice::Submitted, "also bad").err(),
        Some(ComposeError::InvalidSender)
    );
}

#[test]
fn reports_bad_recipient() {
    assert_eq!(
        compose_email(&config("office@example.com"), Notice::Submitted, "nobody").err(),
        Some(ComposeError::InvalidRecipient)
    );
}

#[test]
fn notice_carries_sender_recipient_subject_and_text() {
    let c = config("office@example.com");
    let m = compose_notice(&c, Notice::Submitted, "jane@example.com").unwrap();
    assert_eq!(m.from, "office@example.com");
    assert_eq!(m.to, "jane@example.com");
    assert_eq!(m.subject, "Documents received");
    assert_eq!(m.body, "We received your documents.");
    let m = compose_notice(&c, Notice::StateChanged, "bob@example.org").unwrap();
    assert_eq!(m.to, "bob@example.org");
    assert_eq!(m.subject, "Application updated");
    assert_eq!(m.body, "The state of your application changed.");
}

#[test]
fn notice_errors_match_message_errors() {
    assert_eq!(
        compose_notice(&config("bad"), Notice::Removed, "jane@example.com").err(),
        Some(ComposeError::InvalidSender)
    );
    assert_eq!(
        compose_notice(&config("office@example.com"), Notice::Removed, "bad").err(),
        Some(ComposeError::InvalidRecipient)
    );
}

#[test]
fn named_mailboxes_build_too() {
    let msg = compose_email(
        &config("Office Team <office@example.com>"),
        Notice::Submitted,
        "\"Doe, Jane\" <jane@example.com>",
    );
    let text = String::from_utf8(msg.unwrap().message().formatted()).unwrap();
    assert!(text.contains("office@example.com"));
    assert!(text.contains("jane@example.com"));
}
