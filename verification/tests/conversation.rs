use tauri_greeter::conversation::{Command, Event, Screen};
use tauri_greeter::greeter::Account;
use tauri_greeter::lightdm::{Complete, Hints, Notice, Prompt, Session, User};

fn account(name: &str, session: &str, layout: &str) -> Account {
    Account {
        user: User {
            name: name.into(),
            display_name: name.into(),
            image: String::new(),
            session: session.into(),
            language: String::new(),
            layout: layout.into(),
            logged_in: false,
        },
        picture: String::new(),
    }
}

fn session(key: &str, wayland: bool) -> Session {
    Session { key: key.into(), name: key.into(), wayland }
}

fn ready(hints: Hints) -> Event {
    Event::Ready {
        hints,
        accounts: vec![account("alice", "", ""), account("brian", "plasma", "gb")],
        sessions: vec![session("hyprland", true), session("plasma", true)],
        layout: "us".into(),
        language: "en_GB.UTF-8".into(),
    }
}

fn connected() -> Hints {
    Hints { connected: true, select_user: "brian".into(), ..Hints::default() }
}

#[test]
fn ready_preselects_the_last_account_and_starts_its_conversation() {
    let mut screen = Screen::new();
    let commands = screen.handle(ready(connected()));
    assert!(
        matches!(&commands[..], [Command::SetLayout(l), Command::Arm(1), Command::Authenticate(u)]
            if l == "gb" && u == "brian"),
        "{commands:?}"
    );
    assert_eq!(screen.username, "brian");
    assert_eq!(screen.session, "plasma");
    assert_eq!(screen.layout, "gb");
    assert!(screen.busy);
}

#[test]
fn an_answer_is_sent_once_and_cleared() {
    let mut screen = Screen::new();
    screen.handle(ready(connected()));
    let commands = screen.handle(Event::Prompt(Prompt { text: "Password: ".into(), secret: true }));
    assert!(matches!(&commands[..], [Command::FocusAnswer]));
    assert!(!screen.busy);

    screen.handle(Event::TypeAnswer("hunter2".into()));
    let commands = screen.handle(Event::Submit);
    assert!(
        matches!(&commands[..], [Command::Arm(2), Command::Respond(a)] if a == "hunter2"),
        "{commands:?}"
    );
    assert_eq!(screen.answer, "");
    assert!(screen.busy);

    // A second Enter while the first answer is out sends nothing.
    let commands = screen.handle(Event::Submit);
    assert!(commands.is_empty());
}

#[test]
fn a_rejection_goes_straight_back_to_a_live_prompt() {
    let mut screen = Screen::new();
    screen.handle(ready(connected()));
    screen.handle(Event::Message(Notice { text: "Your password has expired".into(), error: true }));
    let commands = screen.handle(Event::Complete(Complete {
        authenticated: false,
        user: "brian".into(),
    }));
    assert!(
        matches!(&commands[..], [Command::Arm(2), Command::Authenticate(u)] if u == "brian"),
        "{commands:?}"
    );
    assert_eq!(screen.error, "Authentication failed.");
    // PAM's explanation stays up until the next attempt says something.
    assert_eq!(screen.notices.len(), 1);
    screen.handle(Event::Message(Notice { text: "Password: ".into(), error: false }));
    assert_eq!(screen.notices.len(), 1);
    assert_eq!(screen.notices[0].text, "Password: ");
}

#[test]
fn only_lightdm_verdict_starts_the_session() {
    let mut screen = Screen::new();
    screen.handle(ready(connected()));
    screen.handle(Event::PickSession("hyprland".into()));
    let commands = screen.handle(Event::Complete(Complete {
        authenticated: true,
        user: "brian".into(),
    }));
    assert!(
        matches!(&commands[..], [Command::Arm(2), Command::StartSession { session, language }]
            if session == "hyprland" && language == "en_GB.UTF-8"),
        "{commands:?}"
    );
}

#[test]
fn a_deadline_for_a_superseded_request_is_ignored() {
    let mut screen = Screen::new();
    screen.handle(ready(connected()));
    screen.handle(Event::Select("alice".into()));
    assert_eq!(screen.attempt, 2);
    assert!(screen.handle(Event::Deadline(1)).is_empty());
    assert!(screen.busy);
    let commands = screen.handle(Event::Deadline(2));
    assert!(matches!(&commands[..], [Command::Cancel]));
    assert_eq!(screen.error, "Login is unavailable.");
    assert!(!screen.busy);
    assert!(screen.handle(Event::Deadline(2)).is_empty());
}

#[test]
fn the_typed_name_entry_waits_for_a_name() {
    let mut screen = Screen::new();
    screen.handle(ready(connected()));
    let commands = screen.handle(Event::Select("*other".into()));
    assert!(matches!(&commands[..], [Command::Cancel, Command::FocusManual]), "{commands:?}");
    assert!(!screen.busy);
    assert!(screen.handle(Event::EnterName).is_empty());
    screen.handle(Event::TypeName("  dev ".into()));
    let commands = screen.handle(Event::EnterName);
    assert!(
        matches!(&commands[..], [Command::Arm(_), Command::Authenticate(u)] if u == "dev"),
        "{commands:?}"
    );
}

#[test]
fn a_key_press_stops_the_autologin_countdown() {
    let hints = Hints {
        autologin_user: "kiosk".into(),
        autologin_session: "plasma".into(),
        autologin_timeout: 3,
        ..connected()
    };
    let mut screen = Screen::new();
    screen.handle(ready(hints));
    assert_eq!(screen.countdown, 3);
    screen.handle(Event::Tick);
    assert_eq!(screen.countdown, 2);
    let commands = screen.handle(Event::Key { escape: false });
    assert!(matches!(&commands[..], [Command::CancelAutologin]));
    assert_eq!(screen.countdown, 0);
    assert!(screen.handle(Event::Key { escape: false }).is_empty());
}

#[test]
fn an_expired_autologin_uses_the_configured_session() {
    let hints = Hints {
        autologin_user: "kiosk".into(),
        autologin_session: "hyprland".into(),
        autologin_timeout: 5,
        ..connected()
    };
    let mut screen = Screen::new();
    screen.handle(ready(hints));
    let commands = screen.handle(Event::AutologinExpired("kiosk".into()));
    assert!(
        matches!(&commands[..], [Command::Arm(2), Command::AuthenticateAutologin]),
        "{commands:?}"
    );
    assert_eq!(screen.session, "hyprland");
    assert_eq!(screen.countdown, 0);
}

#[test]
fn escape_abandons_the_conversation_and_starts_afresh() {
    let mut screen = Screen::new();
    screen.handle(ready(connected()));
    screen.handle(Event::CallFailed("Login is unavailable.".into()));
    assert!(!screen.busy);
    let commands = screen.handle(Event::Key { escape: true });
    assert!(
        matches!(&commands[..], [Command::Arm(2), Command::Authenticate(u)] if u == "brian"),
        "{commands:?}"
    );
    assert_eq!(screen.error, "");
}

#[test]
fn the_screen_shows_the_selected_accounts_picture() {
    let mut screen = Screen::new();
    let mut with_face = account("brian", "plasma", "gb");
    with_face.picture = "data:image/png;base64,iVBORw==".into();
    screen.handle(Event::Ready {
        hints: connected(),
        accounts: vec![account("alice", "", ""), with_face],
        sessions: vec![session("plasma", true)],
        layout: String::new(),
        language: String::new(),
    });
    assert_eq!(screen.picture().as_deref(), Some("data:image/png;base64,iVBORw=="));
    screen.handle(Event::Select("alice".into()));
    assert_eq!(screen.picture(), None);
    assert!(!screen.typing_name());
    screen.handle(Event::Select("*other".into()));
    assert!(screen.typing_name());
    // No prompt yet: the field does not echo, and waits.
    assert!(screen.secret());
    assert!(screen.waiting());
    screen.handle(Event::TypeName("dev".into()));
    screen.handle(Event::EnterName);
    screen.handle(Event::Prompt(Prompt { text: "Token:".into(), secret: false }));
    assert!(!screen.secret());
    assert!(!screen.waiting());
}
