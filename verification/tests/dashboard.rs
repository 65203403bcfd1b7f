use ubpa_hermes::dashboard::{build_dashboard, format_applicant, render_applicant, ApplicantRow};
use ubpa_hermes::templates::AdminDashboardTemplate;

fn row(key: &str, value: &str, state: i32, created_at: &str) -> ApplicantRow {
    ApplicantRow {
        key: key.to_string(),
        value: value.to_string(),
        state,
        created_at: created_at.to_string(),
    }
}

#[test]
fn renders_one_line() {
    let r = row("k1", "a@b.de", 1, "2024-05-06 07:08:09");
    assert_eq!(
        render_applicant(&r).unwrap(),
        "k1,  a@b.de  state: fresh,  created at: 2024-05-06 07:08:09"
    );
    let r = row("k2", "c@d.de", 2, "2024-05-06 07:08:09");
    assert_eq!(
        render_applicant(&r).unwrap(),
        "k2,  c@d.de  state: old,  created at: 2024-05-06 07:08:09"
    );
    let r = row("k3", "e@f.de", 9, "2024-05-06 07:08:09");
    assert_eq!(
        render_applicant(&r).unwrap(),
        "k3,  e@f.de  state: none,  created at: 2024-05-06 07:08:09"
    );
}

#[test]
fn unreadable_time_renders_nothing() {
    let r = row("k1", "a@b.de", 1, "06.05.2024");
    assert!(render_applicant(&r).is_none());
}

#[test]
fn lists_each_applicant_once() {
    let rows = vec![
        row("k1", "a@b.de", 1, "2024-05-06 07:08:09"),
        row("k2", "c@d.de", 2, "2024-05-07 07:08:09"),
    ];
    let dash: AdminDashboardTemplate = build_dashboard(&rows).unwrap();
    assert_eq!(
        dash.applicants,
        vec![
            "k1,  a@b.de  state: fresh,  created at: 2024-05-06 07:08:09".to_string(),
            "k2,  c@d.de  state: old,  created at: 2024-05-07 07:08:09".to_string(),
        ]
    );
}

#[test]
fn later_row_with_same_key_replaces_earlier() {
    let rows = vec![
        row("k1", "a@b.de", 1, "2024-05-06 07:08:09"),
        row("k2", "c@d.de", 2, "2024-05-07 07:08:09"),
        row("k1", "x@y.de", 2, "2024-05-08 07:08:09"),
    ];
    let dash = build_dashboard(&rows).unwrap();
    assert_eq!(dash.applicants.len(), 2);
    assert_eq!(dash.applicants[0], "k1,  x@y.de  state: old,  created at: 2024-05-08 07:08:09");
    assert_eq!(dash.applicants[1], "k2,  c@d.de  state: old,  created at: 2024-05-07 07:08:09");
}

#[test]
fn empty_table_gives_empty_dashboard() {
    let dash = build_dashboard(&Vec::new()).unwrap();
    assert!(dash.applicants.is_empty());
    assert!(AdminDashboardTemplate::empty().applicants.is_empty());
}

#[test]
fn unreadable_row_spoils_the_dashboard() {
    let rows = vec![
        row("k1", "a@b.de", 1, "2024-05-06 07:08:09"),
        row("k2", "c@d.de", 2, "not a time"),
    ];
    assert!(build_dashboard(&rows).is_none());
}

#[test]
fn formats_lines_exactly() {
    assert_eq!(
        format_applicant("abc", "x@y.de", 1, "2024-01-01 00:00:00"),
        "abc,  x@y.de  state: fresh,  created at: 2024-01-01 00:00:00"
    );
    assert_eq!(format_applicant("", "", 0, ""), ",    state: none,  created at: ");
}
