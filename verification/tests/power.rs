use tauri_greeter::power::{failure_message, Action};

#[test]
fn maps_actions_to_systemctl_verbs() {
    assert_eq!(Action::Suspend.systemctl_verb(), "suspend");
    assert_eq!(Action::Reboot.systemctl_verb(), "reboot");
    assert_eq!(Action::Shutdown.systemctl_verb(), "poweroff");
}

#[test]
fn power_deserializes_action_names_sent_by_the_ui() {
    let action: Action = Action::from_name("shutdown").unwrap();
    assert_eq!(action.systemctl_verb(), "poweroff");
}

#[test]
fn names_round_trip_and_unknown_names_are_refused() {
    for action in [Action::Suspend, Action::Reboot, Action::Shutdown] {
        assert_eq!(Action::from_name(action.name()), Some(action));
    }
    assert_eq!(Action::from_name("hibernate"), None);
    assert_eq!(Action::from_name("Shutdown"), None);
}

#[test]
fn reports_what_systemctl_said() {
    assert_eq!(
        failure_message("poweroff", "  Access denied\n"),
        "systemctl poweroff failed: Access denied"
    );
}
