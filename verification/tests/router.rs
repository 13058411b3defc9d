use goal_tray::router::TrayAction;
use goal_tray::router::route;

#[test]
fn quit_terminates_without_event() {
    assert_eq!(route("quit"), TrayAction::Quit);
}

#[test]
fn show_makes_window_visible() {
    assert_eq!(route("show"), TrayAction::ShowWindow);
}

#[test]
fn add_goal_makes_window_visible() {
    assert_eq!(route("add_goal"), TrayAction::ShowWindow);
}

#[test]
fn complete_click_emits_one_toggle() {
    assert_eq!(route("complete_a"), TrayAction::EmitToggle("a".to_string()));
}

#[test]
fn uncomplete_click_emits_one_toggle() {
    assert_eq!(route("uncomplete_z"), TrayAction::EmitToggle("z".to_string()));
}

#[test]
fn remove_impediment_click_emits_remove() {
    assert_eq!(
        route("remove_impediment_g7"),
        TrayAction::EmitRemoveImpediment("g7".to_string())
    );
}

#[test]
fn add_impediment_click_shows_then_emits_add() {
    assert_eq!(
        route("add_impediment_g7"),
        TrayAction::ShowAndEmitAddImpediment("g7".to_string())
    );
}

#[test]
fn unknown_identifier_is_a_no_op() {
    assert_eq!(route("foo"), TrayAction::Ignore);
}

#[test]
fn empty_identifier_is_a_no_op() {
    assert_eq!(route(""), TrayAction::Ignore);
}

#[test]
fn composite_token_with_empty_payload_is_malformed() {
    assert_eq!(route("complete_"), TrayAction::Ignore);
    assert_eq!(route("uncomplete_"), TrayAction::Ignore);
    assert_eq!(route("remove_impediment_"), TrayAction::Ignore);
    assert_eq!(route("add_impediment_"), TrayAction::Ignore);
}

#[test]
fn section_labels_are_not_actions() {
    assert_eq!(route("pending_label"), TrayAction::Ignore);
    assert_eq!(route("completed_label"), TrayAction::Ignore);
}

#[test]
fn goal_id_with_underscores_survives_the_round_trip() {
    assert_eq!(
        route("complete_my_goal_1"),
        TrayAction::EmitToggle("my_goal_1".to_string())
    );
}

#[test]
fn non_ascii_goal_id_survives_the_round_trip() {
    assert_eq!(
        route("complete_méta_1"),
        TrayAction::EmitToggle("méta_1".to_string())
    );
}
