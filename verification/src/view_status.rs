use vstd::prelude::*;

use crate::templates::StatusTemplate;

verus! {

/// The form an applicant sends to look up their application.
pub struct LoginForm {
    pub token: String,
    pub email: String,
}

/// The message shown when no application matches the token and address.
pub const NOT_FOUND: &'static str = "User not found";

/// The status page: no error when an application matched, else the
/// not-found message.
pub fn status_page(found: bool) -> (page: StatusTemplate<'static>)
    ensures
        page.error@ == if found {
            ""@
        } else {
            NOT_FOUND@
        },
{
    if found {
        StatusTemplate { error: "" }
    } else {
        StatusTemplate { error: NOT_FOUND }
    }
}

} // verus!
