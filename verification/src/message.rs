use vstd::prelude::*;

use crate::send_email::{mailbox_accepts, NoticeEmail};

verus! {

#[verifier::external_type_specification]
#[verifier::external_body]
pub struct ExMessage(lettre::Message);

/// A built message together with the notice it was built from. Its fields
/// are private to this module, so `notice_message` is the only way to get one:
/// a message is never paired with another notice than its own.
pub struct NoticeMessage {
    notice: NoticeEmail,
    message: lettre::Message,
}

impl NoticeMessage {
    /// The notice the message was built from.
    pub closed spec fn notice_spec(&self) -> NoticeEmail {
        self.notice
    }

    /// The notice the message was built from.
    pub fn notice(&self) -> (n: &NoticeEmail)
        ensures
            *n == self.notice_spec(),
    {
        &self.notice
    }

    /// The message, to be handed to a transport.
    pub fn message(&self) -> &lettre::Message {
        &self.message
    }

    /// Gives up the notice and keeps the message.
    pub fn into_message(self) -> lettre::Message {
        self.message
    }
}

/// Turns a notice into a `lettre::Message`: reads its sender and recipient
/// with `Mailbox::from_str` and passes them, its subject and its text to
/// `lettre::Message::builder()` (`from`, `to`, `subject`, `body`), and pairs
/// the message with the notice.
/// Clauses: the pair holds the notice given; with both addresses readable
/// (the `requires`) the build succeeds, since `MessageBuilder::build` fails
/// only when `From` is missing or doubled or `To` is missing, and here exactly
/// one of each is set.
/// Trusted without a clause (lettre's `Message` is opaque to the library):
/// the body is the call above, so the message is made of exactly the paired
/// notice's four parts. Its other headers are lettre's (the builder stamps the
/// current date, and panics if the clock lies before 1970 or after 9999).
#[verifier::external_body]
pub(crate) fn notice_message(email: NoticeEmail) -> (msg: NoticeMessage)
    requires
        mailbox_accepts(email.from@),
        mailbox_accepts(email.to@),
    ensures
        msg.notice_spec() == email,
{
    let from: lettre::message::Mailbox = email.from.parse().unwrap();
    let to: lettre::message::Mailbox = email.to.parse().unwrap();
    let message = lettre::Message::builder()
        .from(from)
        .to(to)
        .subject(email.subject.as_str())
        .body(email.body.clone())
        .unwrap();
    NoticeMessage { notice: email, message }
}

} // verus!
