use tauri_greeter::daemon::{
    authority_record, first_free_display, journal_safe, rejection_detail, response,
    select_session, starts_session, x_lock_path, x_server_args, x_socket_path,
};
use tauri_greeter::session::Session;

#[test]
fn strips_control_characters_from_logged_usernames() {
    assert_eq!(journal_safe("brian"), "brian");
    // A forged second journal line, defused.
    assert_eq!(journal_safe("x\ncssdm: opening session for root"), "xcssdmopeningsessionforroot");
    assert_eq!(journal_safe(&"a".repeat(500)).len(), 32);
}

/// libXau reads this file; a wrong length prefix means a greeter that cannot
/// open its own display, on a machine with no other way in.
#[test]
fn authority_record_is_a_wild_mit_magic_cookie() {
    let cookie = [0xAB; 16];
    let record = authority_record(&cookie);

    assert_eq!(&record[..2], &[0xFF, 0xFF], "FamilyWild");
    assert_eq!(&record[2..4], &[0, 0], "empty address");
    assert_eq!(&record[4..6], &[0, 0], "empty display number");
    assert_eq!(&record[6..8], &[0, 18], "name length");
    assert_eq!(&record[8..26], b"MIT-MAGIC-COOKIE-1");
    assert_eq!(&record[26..28], &[0, 16], "cookie length");
    assert_eq!(&record[28..], &cookie);
    assert_eq!(record.len(), 44);
}

#[test]
fn every_failure_is_told_the_same_thing() {
    let ok: Result<(), String> = Ok(());
    assert!(response(&ok).error.is_none());
    for detail in ["no such account", "uid 0 is not a login account", "Authentication failure"] {
        let failed: Result<(), String> = Err(detail.to_string());
        assert_eq!(response(&failed).error.as_deref(), Some("Incorrect password."));
    }
}

#[test]
fn never_starts_a_session_the_greeter_thinks_failed() {
    assert!(starts_session(true, true));
    assert!(!starts_session(true, false));
    assert!(!starts_session(false, true));
}

fn session(id: &str, name: &str) -> Session {
    Session {
        id: id.into(),
        name: name.into(),
        command: id.into(),
        desktop_names: String::new(),
        wayland: false,
    }
}

#[test]
fn the_session_comes_from_the_daemons_own_scan() {
    let scanned = vec![session("plasma", "KDE Plasma"), session("i3", "i3")];
    assert_eq!(select_session(scanned, "i3", "brian").unwrap().id, "i3");
    let scanned = vec![session("plasma", "KDE Plasma")];
    assert_eq!(
        select_session(scanned, "rm -rf /", "bri\nan").unwrap_err(),
        "brian: unknown session"
    );
    assert_eq!(rejection_detail("root\u{1b}", "uid 0 is not a login account"),
        "root: uid 0 is not a login account");
}

#[test]
fn picks_the_first_free_display() {
    assert_eq!(first_free_display(&vec![false; 16]), Some(0));
    assert_eq!(first_free_display(&vec![true, true, false, false]), Some(2));
    assert_eq!(first_free_display(&vec![true; 16]), None);
    assert_eq!(first_free_display(&vec![true; 20]), None);
    assert_eq!(x_lock_path(3), "/tmp/.X3-lock");
    assert_eq!(x_socket_path(12), "/tmp/.X11-unix/X12");
}

#[test]
fn starts_xorg_for_the_greeter_alone() {
    assert_eq!(
        x_server_args(1, "7", "/run/cssdm/Xauthority"),
        [":1", "vt7", "-auth", "/run/cssdm/Xauthority", "-nolisten", "tcp", "-noreset", "-novtswitch"]
    );
}

#[test]
fn a_long_cookie_length_is_truncated_like_as_u16() {
    let cookie = vec![1u8; 65536 + 3];
    let record = authority_record(&cookie);
    assert_eq!(&record[26..28], &[0, 3]);
    assert_eq!(record.len(), 28 + cookie.len());
}
