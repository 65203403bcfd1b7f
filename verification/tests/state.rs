use ubpa_hermes::state::{toggle_state_code, State};

#[test]
fn codes_map_to_states() {
    assert_eq!(State::from_code(1), State::Fresh);
    assert_eq!(State::from_code(2), State::Old);
    assert_eq!(State::from_code(0), State::Unknown);
    assert_eq!(State::from_code(7), State::Unknown);
}

#[test]
fn states_show_their_labels() {
    assert_eq!(State::Fresh.as_str(), "fresh");
    assert_eq!(State::Old.as_str(), "old");
    assert_eq!(State::Unknown.as_str(), "none");
}

#[test]
fn toggling_swaps_fresh_and_old() {
    assert_eq!(toggle_state_code(1), Some(2));
    assert_eq!(toggle_state_code(2), Some(1));
    assert_eq!(toggle_state_code(3), None);
    assert_eq!(toggle_state_code(-1), None);
}

#[test]
fn toggling_twice_restores_the_state() {
    for code in [1, 2] {
        let once = toggle_state_code(code).unwrap();
        assert_eq!(toggle_state_code(once), Some(code));
    }
}
