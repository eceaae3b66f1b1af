use tauri_greeter::greeter::Account;
use tauri_greeter::lightdm::{hints, Hints, SeatHints, Session, User};
use tauri_greeter::ui::{
    account_label, autologin_countdown, backdrop_label, countdown_text, describes, is_backdrop,
    offers_typed_name, placeholder, prefer, preselect, shows_account_picker, starting_theme, who, backdrop_monitors,
};

fn account(name: &str, session: &str, layout: &str) -> Account {
    Account {
        user: User {
            name: name.into(),
            display_name: name.to_uppercase(),
            image: String::new(),
            session: session.into(),
            language: String::new(),
            layout: layout.into(),
            logged_in: false,
        },
        picture: String::new(),
    }
}

fn seat(select_user: &str, default_session: &str) -> Hints {
    hints(
        "host".into(),
        "os".into(),
        Some(SeatHints {
            hide_users: false,
            show_manual_login: false,
            lock: false,
            has_guest_account: false,
            select_user: select_user.into(),
            select_guest: false,
            default_session: default_session.into(),
            autologin_user: String::new(),
            autologin_session: String::new(),
            autologin_guest: false,
            autologin_timeout: 0,
        }),
    )
}

fn session(key: &str) -> Session {
    Session { key: key.into(), name: key.into(), wayland: false }
}

#[test]
fn preselects_who_logged_in_last() {
    let accounts = vec![account("amy", "", ""), account("brian", "", "")];
    assert_eq!(preselect(&seat("brian", ""), &accounts), "brian");
    assert_eq!(preselect(&seat("gone", ""), &accounts), "amy");
    assert_eq!(preselect(&seat("gone", ""), &vec![]), "*other");
    let mut hidden = seat("brian", "");
    hidden.hide_users = true;
    assert_eq!(preselect(&hidden, &accounts), "*other");
    let mut guest = seat("brian", "");
    guest.select_guest = true;
    guest.has_guest_account = true;
    assert_eq!(preselect(&guest, &accounts), "*guest");
}

#[test]
fn the_account_brings_back_its_session_and_layout() {
    let accounts = vec![account("brian", "plasma", "gb"), account("amy", "uninstalled", "")];
    let sessions = vec![session("hyprland"), session("plasma"), session("i3")];

    let brian = prefer("brian", &accounts, &sessions, &seat("", "i3"));
    assert_eq!(brian.session.as_deref(), Some("plasma"));
    assert_eq!(brian.layout.as_deref(), Some("gb"));
    assert_eq!(brian.language, None);

    let amy = prefer("amy", &accounts, &sessions, &seat("", "i3"));
    assert_eq!(amy.session.as_deref(), Some("i3"));
    assert_eq!(amy.layout, None);

    let stranger = prefer("nobody", &accounts, &sessions, &seat("", "gone"));
    assert_eq!(stranger.session.as_deref(), Some("hyprland"));
    assert_eq!(prefer("x", &accounts, &vec![], &seat("", "")).session, None);
}

#[test]
fn the_prompt_text_loses_its_colon() {
    assert_eq!(placeholder(Some("Password: ")), "Password");
    assert_eq!(placeholder(Some(" Token code :: ")), "Token code");
    assert_eq!(placeholder(None), "Password");
    assert_eq!(who("*other", "  brian "), "brian");
    assert_eq!(who("amy", "brian"), "amy");
}

#[test]
fn draws_only_the_controls_the_seat_allows() {
    let open = seat("", "");
    assert!(shows_account_picker(&open, 2));
    assert!(!shows_account_picker(&open, 0));
    assert!(offers_typed_name(&open, 0));
    assert!(!offers_typed_name(&open, 3));
    assert_eq!(autologin_countdown(&open), 0);
    let mut auto = seat("", "");
    auto.autologin_timeout = 10;
    assert_eq!(autologin_countdown(&auto), 0);
    auto.autologin_guest = true;
    assert_eq!(autologin_countdown(&auto), 10);
    assert_eq!(
        countdown_text("", 9),
        "Logging in as guest in 9s \u{2014} press any key to stay here."
    );
    assert_eq!(
        countdown_text("brian", 10),
        "Logging in as brian in 10s \u{2014} press any key to stay here."
    );
}

#[test]
fn labels_accounts_actions_and_windows() {
    let mut shown = account("brian", "", "");
    assert_eq!(account_label(&shown), "BRIAN");
    shown.user.logged_in = true;
    assert_eq!(account_label(&shown), "BRIAN \u{2014} logged in");
    assert_eq!(describes("suspend").0, "Sleep");
    assert_eq!(describes("hibernate").0, "Hibernate");
    assert_eq!(describes("reboot").0, "Restart");
    assert_eq!(describes("shutdown").0, "Shut Down");
    assert_eq!(describes("anything").0, "Shut Down");
    assert!(is_backdrop(Some("backdrop-0")));
    assert!(!is_backdrop(Some("main")));
    assert!(!is_backdrop(None));
    assert_eq!(backdrop_label(2), "backdrop-2");
    assert_eq!(starting_theme(&vec!["dusk".into(), "nebula".into()]).as_deref(), Some("nebula"));
    assert_eq!(starting_theme(&vec!["dusk".into()]), None);
}

#[test]
fn every_other_monitor_gets_a_backdrop() {
    let positions = vec![(0, 0), (1920, 0), (-1280, 0), (1920, 0)];
    assert_eq!(backdrop_monitors(&positions, (1920, 0)), vec![0, 2]);
    assert_eq!(backdrop_monitors(&positions, (0, 1080)), vec![0, 1, 2, 3]);
    assert!(backdrop_monitors(&vec![(0, 0)], (0, 0)).is_empty());
}
