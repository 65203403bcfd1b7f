use vstd::prelude::*;

use crate::text::str_equal;

verus! {

/// The form an admin sends to log in.
pub struct AdminLoginForm {
    pub password: String,
    pub username: String,
}

/// The admin's user name.
pub const ADMIN_USERNAME: &'static str = "admin";

/// The admin's password.
pub const ADMIN_PASSWORD: &'static str = "12345";

/// Whether the form carries the admin's user name and password.
pub fn admin_credentials_ok(form: &AdminLoginForm) -> (ok: bool)
    ensures
        ok == (form.username@ == ADMIN_USERNAME@ && form.password@ == ADMIN_PASSWORD@),
{
    str_equal(form.username.as_str(), ADMIN_USERNAME) && str_equal(
        form.password.as_str(),
        ADMIN_PASSWORD,
    )
}

} // verus!
