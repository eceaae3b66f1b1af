use tauri_greeter::auth::Passwd;
use tauri_greeter::session::{
    desktop_file_id, is_desktop_file, parse_desktop_file, sessions, strip_field_codes, Session,
};

fn session(name: &str, wayland: bool) -> Session {
    Session {
        id: name.to_lowercase(),
        name: name.to_string(),
        command: name.to_lowercase(),
        desktop_names: String::new(),
        wayland,
    }
}

#[test]
fn session_sorts_wayland_first_then_alphabetically() {
    let given = vec![
        session("GNOME", false),
        session("KDE Plasma", true),
        session("Awesome", false),
        session("Hyprland", true),
    ];
    let sorted = sessions(given, Vec::new());

    let names: Vec<&str> = sorted.iter().map(|s| s.name.as_str()).collect();
    assert_eq!(names, ["Hyprland", "KDE Plasma", "Awesome", "GNOME"]);
}

#[test]
fn reads_name_exec_and_desktop_names() {
    let parsed = parse_desktop_file(
        "cssdm-test",
        "[Desktop Entry]\nName=GNOME\nComment=Nice\nExec=gnome-session %U\nDesktopNames=GNOME\n",
        true,
    )
    .unwrap();
    assert_eq!(parsed.id, "cssdm-test");
    assert_eq!(parsed.name, "GNOME");
    assert_eq!(parsed.command, "gnome-session"); // field code stripped
    assert_eq!(parsed.desktop_names, "GNOME");
    assert!(parsed.wayland);
}

#[test]
fn rejects_desktop_file_without_exec_and_hidden_ones() {
    for body in [
        "[Desktop Entry]\nName=Broken\n",
        "[Desktop Entry]\nName=Gone\nExec=x\nNoDisplay=true\n",
        "[Desktop Entry]\nName=Old\nExec=x\nHidden=true\n",
    ] {
        assert!(parse_desktop_file("cssdm-test-reject", body, false).is_none(), "should skip: {body}");
    }
}

#[test]
fn strips_field_codes_but_keeps_literal_percent() {
    assert_eq!(strip_field_codes("startplasma-wayland %U"), "startplasma-wayland");
    assert_eq!(strip_field_codes("sh -c 'x %% y'"), "sh -c 'x % y'");
}

#[test]
fn a_lone_percent_and_the_character_after_it_go() {
    assert_eq!(strip_field_codes("a%bc"), "ac");
    assert_eq!(strip_field_codes("run %"), "run");
    assert_eq!(strip_field_codes("  %f  "), "");
}

/// The desktop is unusable without these: no `XDG_CURRENT_DESKTOP` and
/// Plasma loads the wrong portal, no `HOME` and nothing starts at all.
#[test]
fn builds_the_session_environment() {
    let user = Passwd {
        name: "brian".into(),
        uid: 1000,
        gid: 1000,
        home: "/home/brian".into(),
        shell: "/bin/bash".into(),
    };
    let mut plasma = session("KDE Plasma", true);
    plasma.id = "plasma".into();
    plasma.desktop_names = "KDE".into();

    let env = plasma.env(&user);
    let get = |key: &str| env.iter().find(|(k, _)| k == key).map(|(_, v)| v.as_str());

    assert_eq!(get("HOME"), Some("/home/brian"));
    assert_eq!(get("USER"), Some("brian"));
    assert_eq!(get("SHELL"), Some("/bin/bash"));
    assert_eq!(get("XDG_SESSION_TYPE"), Some("wayland"));
    assert_eq!(get("XDG_CURRENT_DESKTOP"), Some("KDE"));
    assert_eq!(get("DESKTOP_SESSION"), Some("plasma"));

    // X11 sessions must not claim to be Wayland.
    let x11 = session("i3", false);
    assert_eq!(x11.env(&user).iter().find(|(k, _)| k == "XDG_SESSION_TYPE").unwrap().1, "x11");
    // No DesktopNames= means the variable is left unset, not set empty.
    assert!(x11.env(&user).iter().all(|(k, _)| k != "XDG_CURRENT_DESKTOP"));
}

#[test]
fn values_come_from_the_first_matching_line_trimmed() {
    let parsed = parse_desktop_file(
        "sway",
        "Name=  Sway \r\nExec=sway\nName=Other\nHidden=false\n",
        true,
    )
    .unwrap();
    assert_eq!(parsed.name, "Sway");
    assert_eq!(parsed.command, "sway");
    assert_eq!(parsed.desktop_names, "");
}

#[test]
fn only_desktop_files_are_sessions() {
    assert!(is_desktop_file("plasma.desktop"));
    assert!(is_desktop_file("a.b.desktop"));
    assert!(!is_desktop_file(".desktop"));
    assert!(!is_desktop_file("plasma.desktop~"));
    assert!(!is_desktop_file("desktop"));
    assert_eq!(desktop_file_id("plasma.desktop"), "plasma");
    assert_eq!(desktop_file_id("a.b.desktop"), "a.b");
}

#[test]
fn wayland_and_x11_lists_merge_in_order() {
    let sorted = sessions(
        vec![session("Sway", true), session("Hyprland", true)],
        vec![session("i3", false), session("Awesome", false)],
    );
    let names: Vec<&str> = sorted.iter().map(|s| s.name.as_str()).collect();
    assert_eq!(names, ["Hyprland", "Sway", "Awesome", "i3"]);
}
