use tauri_greeter::lightdm::{
    answer, authentication, check, conversation_reply, describe_language, greeter, hints,
    is_wayland, language_step, languages, layout_position, layouts, notice, power_actions,
    power_permitted, power_reply, prompt, session_reply, session_to_start, sessions,
    unavailable_message, users,
    Action, Authentication, Capabilities, Language, LanguageStep, Layout, SeatHints, Session, User,
};

/// The UI sends these four names; a rename on either side would mean a
/// power button that silently does nothing.
#[test]
fn lightdm_deserializes_action_names_sent_by_the_ui() {
    for (name, expected) in [
        ("suspend", "Suspend"),
        ("hibernate", "Hibernate"),
        ("reboot", "Reboot"),
        ("shutdown", "Shutdown"),
    ] {
        let action: Action = Action::from_name(name).unwrap();
        assert_eq!(format!("{action:?}"), expected);
    }
    assert!(Action::from_name("halt").is_none());

    // And they round-trip: `power_actions` hands them back out for the UI to
    // name in its next `power` call.
    for action in Action::all() {
        let name = action.name();
        assert_eq!(
            format!("{:?}", Action::from_name(name).unwrap()),
            format!("{action:?}")
        );
    }
}

fn session(key: &str, name: &str, wayland: bool) -> Session {
    Session {
        key: key.to_string(),
        name: name.to_string(),
        wayland,
    }
}

/// The fallback session is the first entry, used when neither the account's
/// last session nor LightDM's default-session hint names one that exists.
#[test]
fn lightdm_sorts_wayland_first_then_alphabetically() {
    let sorted = sessions(vec![
        session("gnome-xorg", "GNOME on Xorg", false),
        session("plasma", "KDE Plasma", true),
        session("awesome", "Awesome", false),
        session("hyprland", "Hyprland", true),
    ]);

    let names: Vec<&str> = sorted.iter().map(|s| s.name.as_str()).collect();
    assert_eq!(names, ["Hyprland", "KDE Plasma", "Awesome", "GNOME on Xorg"]);
}

#[test]
fn sessions_without_a_key_or_name_are_dropped() {
    let sorted = sessions(vec![
        session("", "Nameless key", true),
        session("x", "", false),
        session("i3", "i3", false),
    ]);
    assert_eq!(sorted.len(), 1);
    assert_eq!(sorted[0].key, "i3");
    assert!(is_wayland("wayland"));
    assert!(!is_wayland("x"));
}

/// `check` has to produce a message whichever way LightDM failed.
#[test]
fn check_reports_and_frees_the_error() {
    let ok = check(true, None);
    assert!(ok.is_ok());

    let failed = check(false, Some("no such thing".to_string()));
    assert_eq!(failed.unwrap_err(), "no such thing");

    // A function that fails without setting an error still has to say so.
    assert_eq!(check(false, None).unwrap_err(), "failed");
}

/// The offered list never contains one that was refused, and contains every
/// one that was allowed.
#[test]
fn asks_logind_what_it_is_allowed_to_do() {
    let can = Capabilities { suspend: true, hibernate: false, restart: true, shutdown: false };
    let offered = power_actions(can);
    for action in Action::all() {
        let answer = can.available(action);
        assert_eq!(
            answer,
            offered.iter().any(|o| format!("{o:?}") == format!("{action:?}"))
        );
    }
    assert_eq!(offered, [Action::Suspend, Action::Reboot]);
    let none = Capabilities { suspend: false, hibernate: false, restart: false, shutdown: false };
    assert!(power_actions(none).is_empty());
}

/// Without a LightDM to talk to, every step of the conversation must fail --
/// and say nothing about credentials while doing it.
#[test]
fn the_conversation_is_unavailable_without_a_daemon() {
    let unavailable = "Login is unavailable.";
    assert_eq!(greeter::<u8>(None).unwrap_err(), unavailable);
    assert_eq!(greeter(Some(7u8)).unwrap(), 7);
    assert_eq!(
        conversation_reply(Err("Failed to connect".to_string())).unwrap_err(),
        unavailable
    );
    assert!(conversation_reply(Ok(())).is_ok());

    // The hints still describe the machine, so the UI can draw and explain
    // itself rather than showing an empty login form.
    let hints = hints("testbox".to_string(), "Arch Linux".to_string(), None);
    assert!(!hints.connected);
    assert!(!hints.hostname.is_empty());
    assert_eq!(hints.autologin_timeout, 0);
}

#[test]
fn a_connected_seat_passes_its_hints_on() {
    let seat = SeatHints {
        hide_users: true,
        show_manual_login: false,
        lock: true,
        has_guest_account: true,
        select_user: "brian".to_string(),
        select_guest: false,
        default_session: "plasma".to_string(),
        autologin_user: String::new(),
        autologin_session: String::new(),
        autologin_guest: false,
        autologin_timeout: 10,
    };
    let hints = hints("h".to_string(), "o".to_string(), Some(seat));
    assert!(hints.connected && hints.hide_users && hints.lock && hints.has_guest_account);
    assert_eq!(hints.select_user, "brian");
    assert_eq!(hints.default_session, "plasma");
    assert_eq!(hints.autologin_timeout, 10);
}

#[test]
fn plans_each_step_of_the_conversation() {
    assert!(matches!(authentication("*guest"), Ok(Authentication::Guest)));
    match authentication("brian") {
        Ok(Authentication::Account(name)) => assert_eq!(name, "brian"),
        other => panic!("unexpected {other:?}"),
    }
    assert_eq!(authentication("bri\0an").unwrap_err(), "Login is unavailable.");
    assert_eq!(answer("hunter2".to_string()).unwrap(), "hunter2");
    assert_eq!(answer("a\0b".to_string()).unwrap_err(), "Login is unavailable.");

    assert!(matches!(language_step(""), LanguageStep::Keep));
    assert!(matches!(language_step("en\0"), LanguageStep::Rejected));
    match language_step("en_GB.UTF-8") {
        LanguageStep::Apply(code) => assert_eq!(code, "en_GB.UTF-8"),
        other => panic!("unexpected {other:?}"),
    }
    assert_eq!(session_to_start("").unwrap(), None);
    assert_eq!(session_to_start("plasma").unwrap(), Some("plasma".to_string()));
    assert_eq!(session_to_start("pla\0sma").unwrap_err(), "Login is unavailable.");
    assert_eq!(
        session_reply(Err("no such session".to_string())).unwrap_err(),
        "That session could not be started."
    );
}

#[test]
fn power_is_refused_unless_logind_allows_it() {
    let can = Capabilities { suspend: true, hibernate: false, restart: false, shutdown: true };
    assert!(power_permitted(can, Action::Suspend).is_ok());
    assert_eq!(power_permitted(can, Action::Hibernate).unwrap_err(), "That is not available.");
    assert_eq!(power_reply(Err("polkit".to_string())).unwrap_err(), "That is not available.");
}

fn user(name: &str) -> User {
    User {
        name: name.to_string(),
        display_name: name.to_uppercase(),
        image: String::new(),
        session: String::new(),
        language: String::new(),
        layout: String::new(),
        logged_in: false,
    }
}

#[test]
fn accounts_are_listed_by_name_nameless_ones_dropped() {
    let listed = users(vec![user("zoe"), user(""), user("amy"), user("brian")]);
    let names: Vec<&str> = listed.iter().map(|u| u.name.as_str()).collect();
    assert_eq!(names, ["amy", "brian", "zoe"]);
}

#[test]
fn layouts_are_listed_by_description() {
    let listed = layouts(vec![
        Layout { name: "gb".into(), description: "English (UK)".into() },
        Layout { name: "".into(), description: "Broken".into() },
        Layout { name: "de".into(), description: "German".into() },
        Layout { name: "us".into(), description: "English (US)".into() },
    ]);
    let names: Vec<&str> = listed.iter().map(|l| l.name.as_str()).collect();
    assert_eq!(names, ["gb", "us", "de"]);
    let keys: Vec<String> = listed.iter().map(|l| l.name.clone()).collect();
    assert_eq!(layout_position(&keys, "us"), Some(1));
    assert_eq!(layout_position(&keys, "fr"), None);
}

#[test]
fn languages_name_their_territory_and_appear_once() {
    let english = describe_language("en_GB.UTF-8".into(), "English".into(), "United Kingdom".into());
    assert_eq!(english.name, "English (United Kingdom)");
    let plain = describe_language("eo".into(), "Esperanto".into(), String::new());
    assert_eq!(plain.name, "Esperanto");

    let listed = languages(vec![
        Language { code: "en_US.UTF-8".into(), name: "English (United States)".into() },
        english,
        Language { code: "en_GB.UTF-8".into(), name: "English (United Kingdom)".into() },
        Language { code: "".into(), name: "Nothing".into() },
        plain,
    ]);
    let codes: Vec<&str> = listed.iter().map(|l| l.code.as_str()).collect();
    assert_eq!(codes, ["en_GB.UTF-8", "en_US.UTF-8", "eo"]);
}

#[test]
fn prompts_and_messages_carry_their_kind() {
    assert!(prompt("Password: ".into(), 1).secret);
    assert!(!prompt("Token: ".into(), 0).secret);
    assert!(notice("Account locked".into(), 1).error);
    assert!(!notice("Expires soon".into(), 0).error);
}

#[test]
fn unavailable_is_never_a_verdict_on_a_password() {
    assert_eq!(unavailable_message(), "Login is unavailable.");
    assert_eq!(conversation_reply(Err("no such user".into())).unwrap_err(), unavailable_message());
}
