use vstd::prelude::*;

verus! {

/// What the server does first when an admin removes an applicant: whom to
/// notify of the removal (the applicant's address, when the lookup found one).
/// The applicant's row is deleted in any case.
pub struct RemovePlan {
    pub notify: Option<String>,
}

/// Decides the removal notice from what the database held for the key: the
/// applicant's e-mail address, or nothing (no such applicant, or the lookup
/// failed). Only a found applicant is notified.
pub fn plan_remove_state(found: Option<String>) -> (plan: RemovePlan)
    ensures
        match found {
            Some(email) => plan.notify matches Some(n) && n@ == email@,
            None => plan.notify is None,
        },
{
    RemovePlan { notify: found }
}

/// Whether the answer to a removal is the refreshed dashboard (when the row
/// was deleted) rather than the empty one (when the deletion failed).
pub fn removal_shows_dashboard(deleted: bool) -> (show: bool)
    ensures
        show == deleted,
{
    deleted
}

} // verus!
