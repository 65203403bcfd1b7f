use vstd::prelude::*;

verus! {

/// The admin dashboard page: one line per applicant.
pub struct AdminDashboardTemplate {
    pub applicants: Vec<String>,
}

/// The admin login page.
pub struct AdminTemaplate {}

/// The privacy notice page.
pub struct PrivacyTemplate;

/// The status page of an applicant; `error` is empty when the applicant was found.
pub struct StatusTemplate<'a> {
    pub error: &'a str,
}

/// The answer to an upload: an error message, or an empty one and the new token.
pub struct UploadTemplate<'a> {
    pub error: &'a str,
    pub token: String,
}

impl AdminDashboardTemplate {
    /// The dashboard that lists nobody.
    pub fn empty() -> (t: AdminDashboardTemplate)
        ensures
            t.applicants@.len() == 0,
    {
        AdminDashboardTemplate { applicants: Vec::new() }
    }
}

} // verus!
