use vstd::prelude::*;

use crate::message::{notice_message, NoticeMessage};

verus! {

/// The sender's account and, for each kind of notice, its subject and text
/// (the fields of `config.json`).
#[derive(Clone)]
pub struct EmailConfig {
    pub email: String,
    pub password: String,
    pub submit_subject: String,
    pub submit: String,
    pub removed_subject: String,
    pub removed: String,
    pub changed_state_subject: String,
    pub changed_state: String,
}

/// The notices sent to applicants: their documents were received, their
/// application was removed, or its state was changed.
#[derive(Debug, Clone, Copy, PartialEq, Eq, Structural)]
pub enum Notice {
    Submitted,
    Removed,
    StateChanged,
}

/// The configured subject of a notice.
pub open spec fn notice_subject(config: EmailConfig, notice: Notice) -> Seq<char> {
    match notice {
        Notice::Submitted => config.submit_subject@,
        Notice::Removed => config.removed_subject@,
        Notice::StateChanged => config.changed_state_subject@,
    }
}

/// The configured text of a notice.
pub open spec fn notice_body(config: EmailConfig, notice: Notice) -> Seq<char> {
    match notice {
        Notice::Submitted => config.submit@,
        Notice::Removed => config.removed@,
        Notice::StateChanged => config.changed_state@,
    }
}

/// The subject and text configured for a notice.
pub fn notice_text(config: &EmailConfig, notice: Notice) -> (text: (&str, &str))
    ensures
        text.0@ == notice_subject(*config, notice),
        text.1@ == notice_body(*config, notice),
{
    match notice {
        Notice::Submitted => (config.submit_subject.as_str(), config.submit.as_str()),
        Notice::Removed => (config.removed_subject.as_str(), config.removed.as_str()),
        Notice::StateChanged => (config.changed_state_subject.as_str(), config.changed_state.as_str()),
    }
}

/// A notice ready to be sent: sender, recipient, subject and text.
pub struct NoticeEmail {
    pub from: String,
    pub to: String,
    pub subject: String,
    pub body: String,
}

/// Whether `lettre` reads a text as a mailbox (`Mailbox::from_str`).
pub uninterp spec fn mailbox_accepts(s: Seq<char>) -> bool;

/// Tries `lettre::message::Mailbox::from_str` on a text.
/// Claimed: it succeeds exactly when `mailbox_accepts` holds of the text;
/// parsing depends on the text alone.
#[verifier::external_body]
fn mailbox_parses(s: &str) -> (ok: bool)
    ensures
        ok == mailbox_accepts(s@),
{
    s.parse::<lettre::message::Mailbox>().is_ok()
}

/// Why a notice could not be put together.
#[derive(Debug, Clone, Copy, PartialEq, Eq, Structural)]
pub enum ComposeError {
    InvalidSender,
    InvalidRecipient,
}

/// Puts together a notice from the configured sender to `recipient`, with the
/// subject and text configured for that notice. The sender's address is
/// checked first, then the recipient's.
pub fn compose_notice(config: &EmailConfig, notice: Notice, recipient: &str) -> (r: Result<
    NoticeEmail,
    ComposeError,
>)
    ensures
        r matches Err(ComposeError::InvalidSender) <==> !mailbox_accepts(config.email@),
        r matches Err(ComposeError::InvalidRecipient) <==> mailbox_accepts(config.email@)
            && !mailbox_accepts(recipient@),
        r is Ok <==> mailbox_accepts(config.email@) && mailbox_accepts(recipient@),
        r matches Ok(m) ==> {
            &&& m.from@ == config.email@
            &&& m.to@ == recipient@
            &&& m.subject@ == notice_subject(*config, notice)
            &&& m.body@ == notice_body(*config, notice)
        },
{
    if !mailbox_parses(config.email.as_str()) {
        return Err(ComposeError::InvalidSender);
    }
    if !mailbox_parses(recipient) {
        return Err(ComposeError::InvalidRecipient);
    }
    let (subject, body) = notice_text(config, notice);
    Ok(
        NoticeEmail {
            from: config.email.clone(),
            to: String::from_str(recipient),
            subject: String::from_str(subject),
            body: String::from_str(body),
        },
    )
}

/// Builds the message of a notice from the configured sender to `recipient`,
/// with the subject and text configured for that notice. It succeeds exactly
/// when both addresses are readable; the message is then built from the
/// notice it carries, whose parts the contract fixes.
pub fn compose_email(config: &EmailConfig, notice: Notice, recipient: &str) -> (msg: Result<
    NoticeMessage,
    ComposeError,
>)
    ensures
        msg matches Err(ComposeError::InvalidSender) <==> !mailbox_accepts(config.email@),
        msg matches Err(ComposeError::InvalidRecipient) <==> mailbox_accepts(config.email@)
            && !mailbox_accepts(recipient@),
        msg is Ok <==> mailbox_accepts(config.email@) && mailbox_accepts(recipient@),
        msg matches Ok(m) ==> {
            &&& m.notice_spec().from@ == config.email@
            &&& m.notice_spec().to@ == recipient@
            &&& m.notice_spec().subject@ == notice_subject(*config, notice)
            &&& m.notice_spec().body@ == notice_body(*config, notice)
        },
{
    match compose_notice(config, notice, recipient) {
        Ok(email) => Ok(notice_message(email)),
        Err(e) => Err(e),
    }
}

} // verus!
