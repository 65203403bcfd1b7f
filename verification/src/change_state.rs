use vstd::prelude::*;

use crate::state::{toggle_state_code, toggled_code};

verus! {

/// The form an admin sends to change or remove an applicant.
pub struct ChangeStateForm {
    pub key: String,
}

/// What the server does when an admin changes an applicant's state: whom to
/// notify, which state code to write (if any), and whether to answer with the
/// refreshed dashboard (else with an empty one).
pub struct ChangeStatePlan {
    pub notify: Option<String>,
    pub new_state: Option<i32>,
    pub show_dashboard: bool,
}

/// Decides the change of state from what the database held for the key: its
/// state code and e-mail address, or nothing (no such applicant, or the lookup
/// failed). A found applicant is notified, fresh and old swap, any other state
/// stays, and the dashboard is shown; otherwise nothing happens and the empty
/// dashboard is shown.
pub fn plan_change_state(found: Option<(i32, String)>) -> (plan: ChangeStatePlan)
    ensures
        match found {
            Some((code, email)) => {
                &&& plan.notify matches Some(n) && n@ == email@
                &&& match plan.new_state {
                    Some(c) => toggled_code(code as int) == Some(c as int),
                    None => toggled_code(code as int) is None,
                }
                &&& plan.show_dashboard
            },
            None => plan.notify is None && plan.new_state is None && !plan.show_dashboard,
        },
{
    match found {
        Some((code, email)) => ChangeStatePlan {
            notify: Some(email),
            new_state: toggle_state_code(code),
            show_dashboard: true,
        },
        None => ChangeStatePlan { notify: None, new_state: None, show_dashboard: false },
    }
}

} // verus!
