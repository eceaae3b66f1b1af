use tauri_greeter::auth::{
    check_account, is_login_account, launch, pam_settings, parse_login_user, session_environment,
    users, Passwd,
};
use tauri_greeter::session::Session;

#[test]
fn keeps_human_account_and_prefers_gecos_name() {
    let user =
        parse_login_user("brian:x:1000:1000:Brian Teague,,,:/home/brian:/bin/bash").unwrap();
    assert_eq!(user.name, "brian");
    assert_eq!(user.display_name, "Brian Teague");
}

#[test]
fn falls_back_to_account_name_without_gecos() {
    let user = parse_login_user("dev:x:1001:1001::/home/dev:/bin/zsh").unwrap();
    assert_eq!(user.display_name, "dev");
}

#[test]
fn drops_root_service_and_nologin_accounts() {
    for line in [
        "root:x:0:0:root:/root:/bin/bash",
        "http:x:33:33::/srv/http:/usr/bin/nologin",
        "nobody:x:65534:65534:Nobody:/:/usr/bin/nologin",
        "backup:x:1002:1002::/home/backup:/bin/false",
        "truncated:x:1003",
        "",
    ] {
        assert!(parse_login_user(line).is_none(), "should skip: {line}");
    }
}

fn account(uid: u32, shell: &str) -> Passwd {
    Passwd {
        name: "x".into(),
        uid,
        gid: uid,
        home: "/home/x".into(),
        shell: shell.into(),
    }
}

/// The greeter never offers these, but the greeter is not what decides.
#[test]
fn refuses_root_and_service_accounts_whatever_the_greeter_sends() {
    assert!(is_login_account(&account(1000, "/bin/bash")));
    assert!(!is_login_account(&account(0, "/bin/bash")));
    assert!(!is_login_account(&account(33, "/bin/bash")));
    assert!(!is_login_account(&account(65534, "/bin/bash")));
    assert!(!is_login_account(&account(1000, "/usr/bin/nologin")));
    assert!(!is_login_account(&account(1000, "/bin/false")));
}

/// Root resolves to uid 0, and is turned away before PAM is asked anything.
#[test]
fn root_cannot_log_in_even_before_pam_is_consulted() {
    let root = Passwd {
        name: "root".into(),
        uid: 0,
        gid: 0,
        home: "/root".into(),
        shell: "/bin/bash".into(),
    };
    match check_account(Some(root)) {
        Err(error) => assert!(error.contains("not a login account"), "got: {error}"),
        Ok(_) => panic!("root was allowed to log in"),
    }
}

#[test]
fn refusals_name_the_reason_for_the_journal() {
    assert_eq!(check_account(None).unwrap_err(), "no such account");
    assert_eq!(
        check_account(Some(account(33, "/bin/bash"))).unwrap_err(),
        "uid 33 is not a login account"
    );
    assert_eq!(check_account(Some(account(1000, "/bin/bash"))).unwrap().uid, 1000);
}

#[test]
fn lists_login_accounts_sorted_by_name() {
    let passwd = "root:x:0:0:root:/root:/bin/bash\n\
                  zoe:x:1002:1002:Zoe Z:/home/zoe:/bin/zsh\n\
                  daemon:x:2:2::/:/usr/sbin/nologin\n\
                  brian:x:1000:1000:Brian Teague,,,:/home/brian:/bin/bash\r\n\
                  amy:x:1001:1001:  Amy  ,room 4:/home/amy:/bin/bash\n";
    let listed = users(passwd);
    let names: Vec<&str> = listed.iter().map(|u| u.name.as_str()).collect();
    assert_eq!(names, ["amy", "brian", "zoe"]);
    assert_eq!(listed[0].display_name, "Amy");
    assert_eq!(listed[1].display_name, "Brian Teague");
    assert!(users("").is_empty());
}

#[test]
fn a_uid_must_parse_as_a_number() {
    assert!(parse_login_user("a:x:10x0:1:A:/h:/bin/sh").is_none());
    assert!(parse_login_user("a:x::1:A:/h:/bin/sh").is_none());
    assert!(parse_login_user("a:x:99999999999:1:A:/h:/bin/sh").is_none());
    assert_eq!(parse_login_user("a:x:+1500:1:A:/h:/bin/sh").unwrap().name, "a");
}

fn plasma() -> Session {
    Session {
        id: "plasma".into(),
        name: "KDE Plasma".into(),
        command: "startplasma-wayland".into(),
        desktop_names: "KDE".into(),
        wayland: true,
    }
}

#[test]
fn hands_pam_the_seat_vt_and_session() {
    let settings = pam_settings(None, Some("7".into()), &plasma());
    assert_eq!(settings.tty, "/dev/tty7");
    assert_eq!(
        settings.environment,
        [
            "XDG_SEAT=seat0",
            "XDG_VTNR=7",
            "XDG_SESSION_CLASS=user",
            "XDG_SESSION_TYPE=wayland",
            "XDG_SESSION_DESKTOP=plasma",
        ]
    );
    let defaults = pam_settings(Some("seat1".into()), None, &plasma());
    assert_eq!(defaults.tty, "/dev/tty1");
    assert_eq!(defaults.environment[0], "XDG_SEAT=seat1");
}

#[test]
fn pam_variables_come_last_so_they_win() {
    let user = account(1000, "/bin/bash");
    let environment = session_environment(
        &plasma(),
        &user,
        vec![("XDG_RUNTIME_DIR".into(), "/run/user/1000".into())],
    );
    assert_eq!(environment.len(), 11);
    assert_eq!(
        environment.last().unwrap(),
        &("XDG_RUNTIME_DIR".to_string(), "/run/user/1000".to_string())
    );
}

#[test]
fn starts_the_desktop_through_a_login_shell() {
    let started = launch(&account(1000, ""), "startplasma-wayland");
    assert_eq!(started.program, "/bin/sh");
    assert_eq!(started.args, ["-l", "-c", "startplasma-wayland"]);
    assert_eq!(launch(&account(1000, "/bin/zsh"), "x").program, "/bin/zsh");
}
