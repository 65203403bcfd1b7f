use ubpa_hermes::dashboard::ApplicantRow;
use ubpa_hermes::worker::{plan_state_advances, plan_state_advances_now, should_advance};

// 2024-03-01 00:00:00 UTC
const CREATED: i64 = 1709251200;
const DAY: i64 = 86400;

fn row(key: &str, state: i32, created_at: &str) -> ApplicantRow {
    ApplicantRow {
        key: key.to_string(),
        value: "a@b.de".to_string(),
        state,
        created_at: created_at.to_string(),
    }
}

#[test]
fn fresh_and_one_day_old_advances() {
    assert!(should_advance(CREATED + DAY, CREATED, 1));
    assert!(should_advance(CREATED + 2 * DAY - 1, CREATED, 1));
    assert!(!should_advance(CREATED + DAY - 1, CREATED, 1));
    assert!(!should_advance(CREATED + 2 * DAY, CREATED, 1));
    assert!(!should_advance(CREATED + DAY, CREATED, 2));
}

#[test]
fn plans_updates_for_due_rows_only() {
    let rows = vec![
        row("due", 1, "2024-03-01 00:00:00"),
        row("old", 2, "2024-03-01 00:00:00"),
        row("young", 1, "2024-03-02 00:00:00"),
        row("due2", 1, "2024-02-29 12:00:00"),
    ];
    let plan = plan_state_advances(CREATED + DAY + 10, &rows);
    assert_eq!(plan.now, CREATED + DAY + 10);
    assert!(plan.unreadable_at.is_none());
    let keys: Vec<(String, i32)> = plan.updates.iter().map(|u| (u.key.clone(), u.state)).collect();
    assert_eq!(keys, vec![("due".to_string(), 2), ("due2".to_string(), 2)]);
}

#[test]
fn stops_at_unreadable_row() {
    let rows = vec![
        row("due", 1, "2024-03-01 00:00:00"),
        row("bad", 1, "garbage"),
        row("due2", 1, "2024-03-01 00:00:00"),
    ];
    let plan = plan_state_advances(CREATED + DAY, &rows);
    assert_eq!(plan.unreadable_at, Some(1));
    assert_eq!(plan.updates.len(), 1);
    assert_eq!(plan.updates[0].key, "due");
}

#[test]
fn second_sweep_finds_nothing() {
    let mut rows = vec![row("due", 1, "2024-03-01 00:00:00"), row("old", 2, "2024-03-01 00:00:00")];
    let now = CREATED + DAY;
    let plan = plan_state_advances(now, &rows);
    assert_eq!(plan.updates.len(), 1);
    for u in &plan.updates {
        for r in rows.iter_mut() {
            if r.key == u.key {
                r.state = u.state;
            }
        }
    }
    let again = plan_state_advances(now, &rows);
    assert!(again.updates.is_empty());
}

#[test]
fn sweep_now_on_old_rows_finds_nothing() {
    let rows = vec![row("ancient", 1, "2000-01-01 00:00:00")];
    let plan = plan_state_advances_now(&rows);
    assert!(plan.unreadable_at.is_none());
    assert!(plan.updates.is_empty());
}

#[test]
fn daily_passes_catch_a_fresh_row_once() {
    for offset in [0, 1000, DAY - 1, DAY, DAY + 5000, 2 * DAY - 1] {
        let first = CREATED + offset;
        let due: Vec<i64> = (0..6).filter(|k| should_advance(first + k * DAY, CREATED, 1)).collect();
        assert_eq!(due.len(), 1, "offset {}", offset);
    }
}

#[test]
fn passes_only_move_fresh_to_old() {
    let mut rows = vec![
        row("a", 1, "2024-03-01 00:00:00"),
        row("b", 2, "2024-03-01 00:00:00"),
        row("c", 7, "2024-03-01 00:00:00"),
        row("d", 1, "2024-03-02 00:00:00"),
    ];
    let before: Vec<(String, i32)> = rows.iter().map(|r| (r.key.clone(), r.state)).collect();
    for k in 0..4 {
        let plan = plan_state_advances(CREATED + k * DAY + 60, &rows);
        for u in &plan.updates {
            for r in rows.iter_mut() {
                if r.key == u.key {
                    r.state = u.state;
                }
            }
        }
    }
    let after: Vec<(String, i32)> = rows.iter().map(|r| (r.key.clone(), r.state)).collect();
    assert_eq!(before.len(), after.len());
    assert_eq!(after, vec![("a".to_string(), 2), ("b".to_string(), 2), ("c".to_string(), 7), ("d".to_string(), 2)]);
}
