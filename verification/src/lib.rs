//! Verified core of the applicant portal: e-mail and upload validation,
//! applicant state rules, the admin dashboard and the daily state sweep.
//! The web server, the database and the mail transport live in `app/`.

pub mod check_email;
pub mod state;
pub mod text;
pub mod check_pdf;
pub mod datetime;
pub mod templates;
pub mod dashboard;
pub mod worker;
pub mod load;
pub mod send_email;
pub mod message;
pub mod change_state;
pub mod remove_state;
pub mod view_status;
pub mod view_status_admin;
