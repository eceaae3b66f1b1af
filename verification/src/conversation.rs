//! The login screen as a state machine. LightDM's prompts, messages and
//! verdicts, the keyboard and the pickers are events; what the screen then
//! shows is the next state, and what it asks of the backend (authenticate,
//! answer a prompt, start the session) is a list of commands, each request
//! armed with a deadline of its own. The screen never decides for itself that
//! an attempt succeeded: only LightDM's verdict starts a session.
use vstd::prelude::*;

use crate::greeter::Account;
use crate::lightdm::{unavailable, Complete, Hints, Notice, Prompt, Session};
use crate::text::{owned, trim};
use crate::ui::{
    find_account, opt_view, other, preferred_session, prefer, preselect, rejected, remembered,
    spec_preselect, who,
};

verus! {

/// Everything the login screen holds: what LightDM said about the seat, the
/// accounts and sessions on offer, the pickers, and the conversation in flight.
pub struct Screen {
    pub hints: Hints,
    pub accounts: Vec<Account>,
    pub sessions: Vec<Session>,
    /// The account picker's entry: an account name, `*guest` or `*other`.
    pub username: String,
    /// What was typed into the username field.
    pub manual: String,
    pub session: String,
    pub layout: String,
    pub language: String,
    /// The prompt PAM is showing, if any.
    pub prompt: Option<Prompt>,
    /// What was typed in answer to it.
    pub answer: String,
    pub notices: Vec<Notice>,
    pub error: String,
    /// A request is out and nothing has answered it yet.
    pub busy: bool,
    /// Seconds left on LightDM's autologin countdown, as shown.
    pub countdown: i32,
    /// The stamp of the latest request; a deadline carrying an older one is
    /// for a request that was already superseded.
    pub attempt: u32,
    /// The messages on screen belong to an attempt already rejected.
    pub stale: bool,
}

/// A `Screen` as values.
#[verifier::ext_equal]
pub struct ScreenView {
    pub hints: Hints,
    pub accounts: Seq<Account>,
    pub sessions: Seq<Session>,
    pub username: Seq<char>,
    pub manual: Seq<char>,
    pub session: Seq<char>,
    pub layout: Seq<char>,
    pub language: Seq<char>,
    /// The prompt's text and whether it is secret.
    pub prompt: Option<(Seq<char>, bool)>,
    pub answer: Seq<char>,
    /// Each message's text and whether it reports an error.
    pub notices: Seq<(Seq<char>, bool)>,
    pub error: Seq<char>,
    pub busy: bool,
    pub countdown: i32,
    pub attempt: u32,
    pub stale: bool,
}

pub open spec fn notice_view(n: Notice) -> (Seq<char>, bool) {
    (n.text@, n.error)
}

pub open spec fn prompt_view(p: Option<Prompt>) -> Option<(Seq<char>, bool)> {
    match p {
        Some(p) => Some((p.text@, p.secret)),
        None => None,
    }
}

impl View for Screen {
    type V = ScreenView;

    open spec fn view(&self) -> ScreenView {
        ScreenView {
            hints: self.hints,
            accounts: self.accounts@,
            sessions: self.sessions@,
            username: self.username@,
            manual: self.manual@,
            session: self.session@,
            layout: self.layout@,
            language: self.language@,
            prompt: prompt_view(self.prompt),
            answer: self.answer@,
            notices: self.notices@.map_values(|n: Notice| notice_view(n)),
            error: self.error@,
            busy: self.busy,
            countdown: self.countdown,
            attempt: self.attempt,
            stale: self.stale,
        }
    }
}

/// What happens to the login screen.
pub enum Event {
    /// The hints, accounts, sessions and the current keyboard layout and
    /// language have been read (each left empty where reading failed).
    Ready {
        hints: Hints,
        accounts: Vec<Account>,
        sessions: Vec<Session>,
        layout: String,
        language: String,
    },
    /// PAM asks for something.
    Prompt(Prompt),
    /// PAM says something.
    Message(Notice),
    /// LightDM's verdict on the attempt.
    Complete(Complete),
    /// LightDM's autologin countdown ran out, for this account.
    AutologinExpired(String),
    /// The deadline of the request with this stamp has passed.
    Deadline(u32),
    /// A request the screen made failed, with the message to show.
    CallFailed(String),
    /// A key was pressed; `escape` when it was Escape.
    Key { escape: bool },
    /// The account picker moved to this entry.
    Select(String),
    /// The username field now holds this.
    TypeName(String),
    /// The answer field now holds this.
    TypeAnswer(String),
    /// Enter in the username field.
    EnterName,
    /// The login form was submitted.
    Submit,
    PickSession(String),
    PickLayout(String),
    PickLanguage(String),
    /// A second of the autologin countdown passed.
    Tick,
}

/// What the screen asks of the backend.
#[derive(Debug)]
pub enum Command {
    /// Start a conversation for this account (or `*guest`).
    Authenticate(String),
    AuthenticateAutologin,
    /// Answer the prompt that is showing.
    Respond(String),
    /// Abandon the conversation in flight.
    Cancel,
    CancelAutologin,
    StartSession { session: String, language: String },
    SetLayout(String),
    /// Call back with `Event::Deadline` carrying this stamp once the reply
    /// timeout has passed.
    Arm(u32),
    FocusAnswer,
    FocusManual,
}

/// A `Command` as values.
pub enum CommandView {
    Authenticate(Seq<char>),
    AuthenticateAutologin,
    Respond(Seq<char>),
    Cancel,
    CancelAutologin,
    StartSession(Seq<char>, Seq<char>),
    SetLayout(Seq<char>),
    Arm(u32),
    FocusAnswer,
    FocusManual,
}

impl View for Command {
    type V = CommandView;

    open spec fn view(&self) -> CommandView {
        match self {
            Command::Authenticate(u) => CommandView::Authenticate(u@),
            Command::AuthenticateAutologin => CommandView::AuthenticateAutologin,
            Command::Respond(a) => CommandView::Respond(a@),
            Command::Cancel => CommandView::Cancel,
            Command::CancelAutologin => CommandView::CancelAutologin,
            Command::StartSession { session, language } => CommandView::StartSession(
                session@,
                language@,
            ),
            Command::SetLayout(l) => CommandView::SetLayout(l@),
            Command::Arm(s) => CommandView::Arm(*s),
            Command::FocusAnswer => CommandView::FocusAnswer,
            Command::FocusManual => CommandView::FocusManual,
        }
    }
}

pub open spec fn commands_view(c: Seq<Command>) -> Seq<CommandView> {
    c.map_values(|c: Command| c@)
}

/// The picture of the first of `accounts` named `name` that has one.
pub open spec fn picture_of(accounts: Seq<Account>, name: Seq<char>) -> Option<Seq<char>>
    decreases accounts.len(),
{
    if accounts.len() == 0 {
        None
    } else if accounts[0].user.name@ == name && accounts[0].picture@.len() > 0 {
        Some(accounts[0].picture@)
    } else {
        picture_of(accounts.drop_first(), name)
    }
}

/// The stamp after `a`, wrapping round.
pub open spec fn next_stamp(a: u32) -> u32 {
    if a == u32::MAX {
        0
    } else {
        (a + 1) as u32
    }
}

/// Who a conversation is for: the selected entry, or the typed username,
/// trimmed, when the typed-name entry is selected.
pub open spec fn spec_who(username: Seq<char>, manual: Seq<char>) -> Seq<char> {
    if username == other() {
        trim(manual)
    } else {
        username
    }
}

/// (Re)start the conversation: the messages, the prompt and the answer are
/// cleared; with nobody to authenticate (an empty typed username) nothing is
/// out; otherwise a request for that account is armed and sent.
pub open spec fn start_auth(s: ScreenView) -> (ScreenView, Seq<CommandView>) {
    let who = spec_who(s.username, s.manual);
    let cleared = ScreenView { notices: seq![], stale: false, prompt: None, answer: seq![], ..s };
    if who.len() == 0 {
        (ScreenView { busy: false, ..cleared }, seq![])
    } else {
        let stamp = next_stamp(s.attempt);
        (
            ScreenView { busy: true, attempt: stamp, ..cleared },
            seq![CommandView::Arm(stamp), CommandView::Authenticate(who)],
        )
    }
}

/// Stop LightDM's autologin countdown, if it is running.
pub open spec fn stop_countdown(s: ScreenView) -> (ScreenView, Seq<CommandView>) {
    if s.countdown > 0 {
        (ScreenView { countdown: 0, ..s }, seq![CommandView::CancelAutologin])
    } else {
        (s, seq![])
    }
}

/// Point the pickers at what the account `name` used last (see
/// `ui::prefer`); a remembered layout is also switched to.
pub open spec fn prefer_into(s: ScreenView, name: Seq<char>) -> (ScreenView, Seq<CommandView>) {
    let account = find_account(s.accounts, name);
    let layout = remembered(account, |a: Account| a.user.layout@);
    let language = remembered(account, |a: Account| a.user.language@);
    let session = preferred_session(account, s.sessions, s.hints.default_session@);
    (
        ScreenView {
            layout: match layout {
                Some(l) => l,
                None => s.layout,
            },
            language: match language {
                Some(l) => l,
                None => s.language,
            },
            session: match session {
                Some(k) => k,
                None => s.session,
            },
            ..s
        },
        match layout {
            Some(l) => seq![CommandView::SetLayout(l)],
            None => seq![],
        },
    )
}

/// Answer the prompt that is showing, unless a request is already out or no
/// prompt is: the answer is sent and cleared from the screen.
pub open spec fn respond(s: ScreenView) -> (ScreenView, Seq<CommandView>) {
    if s.busy || s.prompt is None {
        (s, seq![])
    } else {
        let stamp = next_stamp(s.attempt);
        (
            ScreenView { error: seq![], answer: seq![], busy: true, attempt: stamp, ..s },
            seq![CommandView::Arm(stamp), CommandView::Respond(s.answer)],
        )
    }
}

/// Whether LightDM's autologin countdown is shown for these hints.
pub open spec fn counts_down(h: Hints) -> bool {
    h.autologin_timeout > 0 && (h.autologin_user@.len() > 0 || h.autologin_guest)
}

/// The next state of the screen, and the commands it issues, on `e`.
pub open spec fn spec_step(s: ScreenView, e: Event) -> (ScreenView, Seq<CommandView>) {
    match e {
        Event::Ready { hints, accounts, sessions, layout, language } => {
            let loaded = ScreenView {
                hints,
                accounts: accounts@,
                sessions: sessions@,
                layout: layout@,
                language: language@,
                username: spec_preselect(hints, accounts@),
                ..s
            };
            let (preferred, set_layout) = prefer_into(loaded, loaded.username);
            let counting = ScreenView {
                countdown: if counts_down(hints) {
                    hints.autologin_timeout
                } else {
                    preferred.countdown
                },
                ..preferred
            };
            let (started, auth) = start_auth(counting);
            (started, set_layout + auth)
        },
        Event::Prompt(p) => (
            ScreenView { busy: false, answer: seq![], prompt: Some((p.text@, p.secret)), ..s },
            seq![CommandView::FocusAnswer],
        ),
        Event::Message(n) => if s.stale {
            (ScreenView { stale: false, notices: seq![notice_view(n)], ..s }, seq![])
        } else {
            (ScreenView { notices: s.notices.push(notice_view(n)), ..s }, seq![])
        },
        Event::Complete(c) => if !c.authenticated {
            let (restarted, auth) = start_auth(ScreenView { error: rejected(), ..s });
            (ScreenView { notices: s.notices, stale: true, ..restarted }, auth)
        } else {
            let stamp = next_stamp(s.attempt);
            (
                ScreenView { busy: true, attempt: stamp, ..s },
                seq![CommandView::Arm(stamp), CommandView::StartSession(s.session, s.language)],
            )
        },
        Event::AutologinExpired(_) => {
            let stamp = next_stamp(s.attempt);
            (
                ScreenView {
                    countdown: 0,
                    session: if s.hints.autologin_session@.len() > 0 {
                        s.hints.autologin_session@
                    } else {
                        s.session
                    },
                    busy: true,
                    attempt: stamp,
                    ..s
                },
                seq![CommandView::Arm(stamp), CommandView::AuthenticateAutologin],
            )
        },
        Event::Deadline(stamp) => if stamp == s.attempt && s.busy {
            (
                ScreenView { busy: false, prompt: None, error: unavailable(), ..s },
                seq![CommandView::Cancel],
            )
        } else {
            (s, seq![])
        },
        Event::CallFailed(message) => (ScreenView { error: message@, busy: false, ..s }, seq![]),
        Event::Key { escape } => {
            let (stopped, cancel) = stop_countdown(s);
            if escape {
                let (restarted, auth) = start_auth(ScreenView { error: seq![], ..stopped });
                (restarted, cancel + auth)
            } else {
                (stopped, cancel)
            }
        },
        Event::Select(name) => {
            let (stopped, cancel) = stop_countdown(s);
            let (preferred, set_layout) = prefer_into(
                ScreenView { error: seq![], username: name@, ..stopped },
                name@,
            );
            if name@ == other() {
                (
                    ScreenView { prompt: None, notices: seq![], busy: false, ..preferred },
                    cancel + set_layout + seq![CommandView::Cancel, CommandView::FocusManual],
                )
            } else {
                let (started, auth) = start_auth(preferred);
                (started, cancel + set_layout + auth)
            }
        },
        Event::TypeName(text) => (ScreenView { manual: text@, ..s }, seq![]),
        Event::TypeAnswer(text) => (ScreenView { answer: text@, ..s }, seq![]),
        Event::EnterName => start_auth(s),
        Event::Submit => if s.prompt is None {
            start_auth(s)
        } else {
            respond(s)
        },
        Event::PickSession(key) => (ScreenView { session: key@, ..s }, seq![]),
        Event::PickLayout(name) => (
            ScreenView { layout: name@, ..s },
            seq![CommandView::SetLayout(name@)],
        ),
        Event::PickLanguage(code) => (ScreenView { language: code@, ..s }, seq![]),
        Event::Tick => if s.countdown > 0 {
            (ScreenView { countdown: (s.countdown - 1) as i32, ..s }, seq![])
        } else {
            (s, seq![])
        },
    }
}

impl Screen {
    /// The screen before anything has been read: no accounts, no sessions,
    /// nothing selected, nothing out.
    pub fn new() -> (r: Screen)
        ensures
            r.accounts@.len() == 0,
            r.sessions@.len() == 0,
            r.username@.len() == 0,
            r.manual@.len() == 0,
            r.session@.len() == 0,
            r.layout@.len() == 0,
            r.language@.len() == 0,
            r.prompt is None,
            r.answer@.len() == 0,
            r.notices@.len() == 0,
            r.error@.len() == 0,
            !r.busy,
            r.countdown == 0,
            r.attempt == 0,
            !r.stale,
            !r.hints.connected,
            r.hints.autologin_timeout == 0,
    {
        Screen {
            hints: Hints {
                connected: false,
                hide_users: false,
                show_manual_login: false,
                lock: false,
                has_guest_account: false,
                select_user: String::new(),
                select_guest: false,
                default_session: String::new(),
                autologin_user: String::new(),
                autologin_session: String::new(),
                autologin_guest: false,
                autologin_timeout: 0,
                hostname: String::new(),
                os: String::new(),
            },
            accounts: Vec::new(),
            sessions: Vec::new(),
            username: String::new(),
            manual: String::new(),
            session: String::new(),
            layout: String::new(),
            language: String::new(),
            prompt: None,
            answer: String::new(),
            notices: Vec::new(),
            error: String::new(),
            busy: false,
            countdown: 0,
            attempt: 0,
            stale: false,
        }
    }

    /// The username field is showing: the typed-name entry is selected.
    pub fn typing_name(&self) -> (r: bool)
        ensures
            r == (self.username@ == other()),
    {
        crate::text::str_eq(self.username.as_str(), "*other")
    }

    /// The answer field does not echo: no prompt is showing yet, or the one
    /// showing is secret.
    pub fn secret(&self) -> (r: bool)
        ensures
            r == (match self.prompt {
                Some(p) => p.secret,
                None => true,
            }),
    {
        match &self.prompt {
            Some(p) => p.secret,
            None => true,
        }
    }

    /// The answer field and the submit button are disabled: no prompt is
    /// showing, or a request is out.
    pub fn waiting(&self) -> (r: bool)
        ensures
            r == (self.prompt is None || self.busy),
    {
        self.prompt.is_none() || self.busy
    }

    /// The picture drawn for the selected account: that of the first listed
    /// account of that name with a picture, or none (the drawn avatar).
    pub fn picture(&self) -> (r: Option<String>)
        ensures
            opt_view(r) == picture_of(self.accounts@, self.username@),
    {
        let mut i: usize = 0;
        assert(self.accounts@.skip(0) =~= self.accounts@);
        while i < self.accounts.len()
            invariant
                i <= self.accounts.len(),
                picture_of(self.accounts@, self.username@) == picture_of(
                    self.accounts@.skip(i as int),
                    self.username@,
                ),
            decreases self.accounts.len() - i,
        {
            let account = &self.accounts[i];
            assert(self.accounts@.skip(i as int)[0] == self.accounts@[i as int]);
            if crate::text::str_eq(account.user.name.as_str(), self.username.as_str())
                && !account.picture.as_str().is_empty() {
                return Some(account.picture.clone());
            }
            assert(self.accounts@.skip(i as int).drop_first() =~= self.accounts@.skip(i + 1));
            i += 1;
        }
        None
    }

    fn arm(&mut self, out: &mut Vec<Command>)
        ensures
            final(self)@ == (ScreenView {
                busy: true,
                attempt: next_stamp(old(self).attempt),
                ..old(self)@
            }),
            commands_view(final(out)@) == commands_view(old(out)@).push(
                CommandView::Arm(next_stamp(old(self).attempt)),
            ),
    {
        self.attempt = self.attempt.wrapping_add(1);
        self.busy = true;
        let ghost before = out@;
        out.push(Command::Arm(self.attempt));
        assert(commands_view(out@) =~= commands_view(before).push(CommandView::Arm(self.attempt)));
    }

    fn start_auth(&mut self, out: &mut Vec<Command>)
        ensures
            final(self)@ == start_auth(old(self)@).0,
            commands_view(final(out)@) == commands_view(old(out)@) + start_auth(old(self)@).1,
    {
        let ghost s = self@;
        let ghost before = out@;
        self.notices = Vec::new();
        self.stale = false;
        self.prompt = None;
        self.answer = String::new();
        let name = who(self.username.as_str(), self.manual.as_str());
        assert(name@ == spec_who(s.username, s.manual));
        if name.as_str().is_empty() {
            self.busy = false;
            assert(self@ =~= start_auth(s).0);
            assert(commands_view(out@) =~= commands_view(before) + start_auth(s).1);
            return;
        }
        self.arm(out);
        let ghost mid = out@;
        out.push(Command::Authenticate(name));
        assert(self@ =~= start_auth(s).0);
        assert(commands_view(out@) =~= commands_view(mid).push(CommandView::Authenticate(name@)));
        assert(commands_view(out@) =~= commands_view(before) + start_auth(s).1);
    }

    fn stop_countdown(&mut self, out: &mut Vec<Command>)
        ensures
            final(self)@ == stop_countdown(old(self)@).0,
            commands_view(final(out)@) == commands_view(old(out)@) + stop_countdown(old(self)@).1,
    {
        let ghost before = out@;
        if self.countdown > 0 {
            self.countdown = 0;
            out.push(Command::CancelAutologin);
            assert(commands_view(out@) =~= commands_view(before) + seq![
                CommandView::CancelAutologin,
            ]);
        } else {
            assert(commands_view(out@) =~= commands_view(before) + seq![]);
        }
    }

    fn prefer_into(&mut self, name: &str, out: &mut Vec<Command>)
        ensures
            final(self)@ == prefer_into(old(self)@, name@).0,
            commands_view(final(out)@) == commands_view(old(out)@) + prefer_into(
                old(self)@,
                name@,
            ).1,
    {
        let ghost s = self@;
        let ghost before = out@;
        let chosen = prefer(name, &self.accounts, &self.sessions, &self.hints);
        match chosen.layout {
            Some(l) => {
                let again = l.clone();
                self.layout = l;
                out.push(Command::SetLayout(again));
                assert(commands_view(out@) =~= commands_view(before) + prefer_into(s, name@).1);
            },
            None => {
                assert(commands_view(out@) =~= commands_view(before) + prefer_into(s, name@).1);
            },
        }
        match chosen.language {
            Some(l) => {
                self.language = l;
            },
            None => {},
        }
        match chosen.session {
            Some(k) => {
                self.session = k;
            },
            None => {},
        }
        assert(self@ =~= prefer_into(s, name@).0);
    }

    fn respond(&mut self, out: &mut Vec<Command>)
        ensures
            final(self)@ == respond(old(self)@).0,
            commands_view(final(out)@) == commands_view(old(out)@) + respond(old(self)@).1,
    {
        let ghost s = self@;
        let ghost before = out@;
        if self.busy || self.prompt.is_none() {
            assert(commands_view(out@) =~= commands_view(before) + respond(s).1);
            return;
        }
        self.error = String::new();
        let mut answer = String::new();
        std::mem::swap(&mut answer, &mut self.answer);
        self.arm(out);
        let ghost mid = out@;
        out.push(Command::Respond(answer));
        assert(self@ =~= respond(s).0);
        assert(commands_view(out@) =~= commands_view(mid).push(CommandView::Respond(s.answer)));
        assert(commands_view(out@) =~= commands_view(before) + respond(s).1);
    }

    /// Take in one event: the screen becomes `spec_step`'s next state and the
    /// commands it names are handed back, in order.
    pub fn handle(&mut self, event: Event) -> (commands: Vec<Command>)
        ensures
            final(self)@ == spec_step(old(self)@, event).0,
            commands_view(commands@) == spec_step(old(self)@, event).1,
    {
        let ghost s = self@;
        let mut out: Vec<Command> = Vec::new();
        assert(commands_view(out@) =~= seq![]);
        match event {
            Event::Ready { hints, accounts, sessions, layout, language } => {
                let name = preselect(&hints, &accounts);
                self.hints = hints;
                self.accounts = accounts;
                self.sessions = sessions;
                self.layout = layout;
                self.language = language;
                self.username = name;
                let ghost loaded = self@;
                let picked = self.username.clone();
                self.prefer_into(picked.as_str(), &mut out);
                let ghost set_layout = out@;
                if self.hints.autologin_timeout > 0 && (!self.hints.autologin_user.as_str().is_empty()
                    || self.hints.autologin_guest) {
                    self.countdown = self.hints.autologin_timeout;
                }
                let ghost counting = self@;
                assert(counting =~= ScreenView {
                    countdown: if counts_down(loaded.hints) {
                        loaded.hints.autologin_timeout
                    } else {
                        prefer_into(loaded, loaded.username).0.countdown
                    },
                    ..prefer_into(loaded, loaded.username).0
                });
                self.start_auth(&mut out);
                assert(commands_view(out@) =~= prefer_into(loaded, loaded.username).1 + start_auth(
                    counting,
                ).1);
            },
            Event::Prompt(p) => {
                self.busy = false;
                self.answer = String::new();
                self.prompt = Some(p);
                out.push(Command::FocusAnswer);
                assert(commands_view(out@) =~= seq![CommandView::FocusAnswer]);
            },
            Event::Message(n) => {
                let ghost shown = notice_view(n);
                if self.stale {
                    self.stale = false;
                    let mut fresh = Vec::new();
                    fresh.push(n);
                    self.notices = fresh;
                    assert(self.notices@.map_values(|n: Notice| notice_view(n)) =~= seq![shown]);
                } else {
                    let ghost earlier = self.notices@;
                    self.notices.push(n);
                    assert(self.notices@.map_values(|n: Notice| notice_view(n)) =~= earlier.map_values(
                        |n: Notice| notice_view(n),
                    ).push(shown));
                }
            },
            Event::Complete(c) => {
                if !c.authenticated {
                    self.error = owned("Authentication failed.");
                    let ghost rejecting = self@;
                    let mut kept: Vec<Notice> = Vec::new();
                    std::mem::swap(&mut kept, &mut self.notices);
                    assert(start_auth(self@).0 == start_auth(rejecting).0);
                    self.start_auth(&mut out);
                    self.notices = kept;
                    self.stale = true;
                } else {
                    self.arm(&mut out);
                    let ghost armed = out@;
                    out.push(
                        Command::StartSession {
                            session: self.session.clone(),
                            language: self.language.clone(),
                        },
                    );
                    assert(commands_view(out@) =~= commands_view(armed).push(
                        CommandView::StartSession(s.session, s.language),
                    ));
                }
            },
            Event::AutologinExpired(_user) => {
                self.countdown = 0;
                if !self.hints.autologin_session.as_str().is_empty() {
                    self.session = self.hints.autologin_session.clone();
                }
                self.arm(&mut out);
                let ghost armed = out@;
                out.push(Command::AuthenticateAutologin);
                assert(commands_view(out@) =~= commands_view(armed).push(
                    CommandView::AuthenticateAutologin,
                ));
            },
            Event::Deadline(stamp) => {
                if stamp == self.attempt && self.busy {
                    self.busy = false;
                    self.prompt = None;
                    self.error = owned("Login is unavailable.");
                    out.push(Command::Cancel);
                    assert(commands_view(out@) =~= seq![CommandView::Cancel]);
                }
            },
            Event::CallFailed(message) => {
                self.error = message;
                self.busy = false;
            },
            Event::Key { escape } => {
                self.stop_countdown(&mut out);
                if escape {
                    self.error = String::new();
                    self.start_auth(&mut out);
                }
            },
            Event::Select(name) => {
                self.stop_countdown(&mut out);
                let ghost cancel = out@;
                assert(commands_view(cancel) =~= stop_countdown(s).1);
                self.error = String::new();
                let picked = name.clone();
                self.username = name;
                let ghost chosen = self@;
                assert(chosen =~= ScreenView {
                    error: seq![],
                    username: picked@,
                    ..stop_countdown(s).0
                });
                self.prefer_into(picked.as_str(), &mut out);
                let ghost preferred_out = out@;
                assert(commands_view(preferred_out) =~= stop_countdown(s).1 + prefer_into(
                    chosen,
                    picked@,
                ).1);
                if crate::text::str_eq(picked.as_str(), "*other") {
                    self.prompt = None;
                    self.notices = Vec::new();
                    self.busy = false;
                    let ghost preferred = out@;
                    out.push(Command::Cancel);
                    out.push(Command::FocusManual);
                    assert(commands_view(out@) =~= commands_view(preferred) + seq![
                        CommandView::Cancel,
                        CommandView::FocusManual,
                    ]);
                } else {
                    self.start_auth(&mut out);
                }
            },
            Event::TypeName(text) => {
                self.manual = text;
            },
            Event::TypeAnswer(text) => {
                self.answer = text;
            },
            Event::EnterName => {
                self.start_auth(&mut out);
            },
            Event::Submit => {
                if self.prompt.is_none() {
                    self.start_auth(&mut out);
                } else {
                    self.respond(&mut out);
                }
            },
            Event::PickSession(key) => {
                self.session = key;
            },
            Event::PickLayout(name) => {
                let again = name.clone();
                self.layout = name;
                out.push(Command::SetLayout(again));
                assert(commands_view(out@) =~= seq![CommandView::SetLayout(self.layout@)]);
            },
            Event::PickLanguage(code) => {
                self.language = code;
            },
            Event::Tick => {
                if self.countdown > 0 {
                    self.countdown = self.countdown - 1;
                }
            },
        }
        out
    }
}

/// A request to LightDM: something that LightDM is expected to answer.
pub open spec fn is_request(c: CommandView) -> bool {
    ||| c is Authenticate
    ||| c is AuthenticateAutologin
    ||| c is Respond
    ||| c is StartSession
}

/// The screen never decides for itself that an attempt succeeded: a session is
/// started only on LightDM's verdict that the attempt authenticated, and it is
/// the session and language the pickers show.
pub proof fn lemma_only_a_verdict_starts_a_session(s: ScreenView, e: Event, i: int)
    requires
        0 <= i < spec_step(s, e).1.len(),
        spec_step(s, e).1[i] is StartSession,
    ensures
        e matches Event::Complete(c) && c.authenticated,
        spec_step(s, e).1[i] == CommandView::StartSession(s.session, s.language),
{
    lemma_step_commands(s, e, i);
}

/// Every request is stamped and given a deadline: it comes right after the
/// `Arm` of the screen's new stamp, and the screen is then waiting on it.
pub proof fn lemma_every_request_is_armed(s: ScreenView, e: Event, i: int)
    requires
        0 <= i < spec_step(s, e).1.len(),
        is_request(spec_step(s, e).1[i]),
    ensures
        i > 0,
        spec_step(s, e).1[i - 1] == CommandView::Arm(spec_step(s, e).0.attempt),
        spec_step(s, e).0.attempt == next_stamp(s.attempt),
        spec_step(s, e).0.busy,
{
    lemma_step_commands(s, e, i);
}

/// A deadline gives the keyboard back only when its request is the latest one
/// and is still unanswered: then the screen stops waiting, says that login is
/// unavailable and abandons the conversation. Any other deadline changes
/// nothing.
pub proof fn lemma_only_a_current_deadline_expires(s: ScreenView, stamp: u32)
    ensures
        stamp == s.attempt && s.busy ==> spec_step(s, Event::Deadline(stamp)) == (
        ScreenView { busy: false, prompt: None, error: unavailable(), ..s },
        seq![CommandView::Cancel],
        ),
        !(stamp == s.attempt && s.busy) ==> spec_step(s, Event::Deadline(stamp)) == (
        s,
        Seq::<CommandView>::empty(),
        ),
{
}

/// What is typed in answer to a prompt is sent once, only while a prompt is
/// showing and nothing is out, and is cleared from the screen as it goes.
pub proof fn lemma_an_answer_is_sent_once(s: ScreenView, e: Event, i: int)
    requires
        0 <= i < spec_step(s, e).1.len(),
        spec_step(s, e).1[i] is Respond,
    ensures
        e is Submit,
        s.prompt is Some,
        !s.busy,
        spec_step(s, e).1[i] == CommandView::Respond(s.answer),
        spec_step(s, e).0.answer.len() == 0,
{
    lemma_step_commands(s, e, i);
}

/// A rejected attempt is told one thing, `rejected()`, and goes straight back
/// to a live conversation for the same account; whatever PAM said on the way
/// stays on screen until the next attempt has something of its own to say.
pub proof fn lemma_a_rejection_says_only_that(s: ScreenView, c: Complete)
    requires
        !c.authenticated,
    ensures
        ({
            let (next, commands) = spec_step(s, Event::Complete(c));
            let who = spec_who(s.username, s.manual);
            &&& next.error == rejected()
            &&& next.notices == s.notices
            &&& next.stale
            &&& next.prompt is None
            &&& next.answer.len() == 0
            &&& who.len() > 0 ==> commands == seq![
                CommandView::Arm(next_stamp(s.attempt)),
                CommandView::Authenticate(who),
            ] && next.busy
            &&& who.len() == 0 ==> commands.len() == 0 && !next.busy
        }),
{
}

/// Anyone touching the keyboard is present: a running autologin countdown is
/// stopped, on screen and at LightDM, before anything else happens.
pub proof fn lemma_a_key_stops_the_countdown(s: ScreenView, escape: bool)
    requires
        s.countdown > 0,
    ensures
        spec_step(s, Event::Key { escape }).0.countdown == 0,
        spec_step(s, Event::Key { escape }).1.len() > 0,
        spec_step(s, Event::Key { escape }).1[0] == CommandView::CancelAutologin,
{
}

/// Where each command `spec_step` issues comes from.
proof fn lemma_step_commands(s: ScreenView, e: Event, i: int)
    requires
        0 <= i < spec_step(s, e).1.len(),
    ensures
        spec_step(s, e).1[i] is StartSession ==> (e matches Event::Complete(c) && c.authenticated
            && spec_step(s, e).1[i] == CommandView::StartSession(s.session, s.language)),
        is_request(spec_step(s, e).1[i]) ==> i > 0 && spec_step(s, e).1[i - 1] == CommandView::Arm(
            spec_step(s, e).0.attempt,
        ) && spec_step(s, e).0.attempt == next_stamp(s.attempt) && spec_step(s, e).0.busy,
        spec_step(s, e).1[i] is Respond ==> (e is Submit && s.prompt is Some && !s.busy
            && spec_step(s, e).1[i] == CommandView::Respond(s.answer) && spec_step(
            s,
            e,
        ).0.answer.len() == 0),
{
    let commands = spec_step(s, e).1;
    match e {
        Event::Ready { hints, accounts, sessions, layout, language } => {
            let loaded = ScreenView {
                hints,
                accounts: accounts@,
                sessions: sessions@,
                layout: layout@,
                language: language@,
                username: spec_preselect(hints, accounts@),
                ..s
            };
            let (preferred, set_layout) = prefer_into(loaded, loaded.username);
            let counting = ScreenView {
                countdown: if counts_down(hints) {
                    hints.autologin_timeout
                } else {
                    preferred.countdown
                },
                ..preferred
            };
            let auth = start_auth(counting).1;
            assert(commands == set_layout + auth);
            assert(set_layout.len() <= 1);
            if i < set_layout.len() {
                assert(commands[i] == set_layout[i]);
            } else {
                assert(commands[i] == auth[i - set_layout.len()]);
                if i - set_layout.len() == 1 {
                    assert(commands[i - 1] == auth[0]);
                }
            }
        },
        Event::Complete(c) => {
            if !c.authenticated {
                assert(commands == start_auth(ScreenView { error: rejected(), ..s }).1);
            }
        },
        Event::Key { escape } => {
            let (stopped, cancel) = stop_countdown(s);
            if escape {
                let auth = start_auth(ScreenView { error: seq![], ..stopped }).1;
                assert(commands == cancel + auth);
                if i >= cancel.len() {
                    assert(commands[i] == auth[i - cancel.len()]);
                    if i - cancel.len() == 1 {
                        assert(commands[i - 1] == auth[0]);
                    }
                }
            }
        },
        Event::Select(name) => {
            let (stopped, cancel) = stop_countdown(s);
            let (preferred, set_layout) = prefer_into(
                ScreenView { error: seq![], username: name@, ..stopped },
                name@,
            );
            let first = cancel + set_layout;
            assert(first.len() <= 2);
            if name@ == other() {
                assert(commands == first + seq![CommandView::Cancel, CommandView::FocusManual]);
                if i < first.len() {
                    assert(commands[i] == first[i]);
                }
            } else {
                let auth = start_auth(preferred).1;
                assert(commands == first + auth);
                if i < first.len() {
                    assert(commands[i] == first[i]);
                } else {
                    assert(commands[i] == auth[i - first.len()]);
                    if i - first.len() == 1 {
                        assert(commands[i - 1] == auth[0]);
                    }
                }
            }
        },
        _ => {},
    }
}

/// Picking a language changes the picked language and nothing else, and the
/// session started on the next "authenticated" verdict is in that language,
/// with the session the picker shows.
pub proof fn lemma_the_picked_language_is_started(s: ScreenView, code: String, c: Complete)
    requires
        c.authenticated,
    ensures
        spec_step(s, Event::PickLanguage(code)).0 == (ScreenView { language: code@, ..s }),
        spec_step(s, Event::PickLanguage(code)).1.len() == 0,
        spec_step(spec_step(s, Event::PickLanguage(code)).0, Event::Complete(c)).1 == seq![
            CommandView::Arm(next_stamp(s.attempt)),
            CommandView::StartSession(s.session, code@),
        ],
{
}

/// Picking a session likewise changes only the picked session, and the next
/// "authenticated" verdict starts that session in the picked language.
pub proof fn lemma_the_picked_session_is_started(s: ScreenView, key: String, c: Complete)
    requires
        c.authenticated,
    ensures
        spec_step(s, Event::PickSession(key)).0 == (ScreenView { session: key@, ..s }),
        spec_step(s, Event::PickSession(key)).1.len() == 0,
        spec_step(spec_step(s, Event::PickSession(key)).0, Event::Complete(c)).1 == seq![
            CommandView::Arm(next_stamp(s.attempt)),
            CommandView::StartSession(key@, s.language),
        ],
{
}

/// Picking a keyboard layout changes only the picked layout and switches the
/// greeter's own keyboard to it.
pub proof fn lemma_the_picked_layout_is_switched_to(s: ScreenView, name: String)
    ensures
        spec_step(s, Event::PickLayout(name)) == (
            ScreenView { layout: name@, ..s },
            seq![CommandView::SetLayout(name@)],
        ),
{
}

/// With the typed-name entry selected, the conversation is for the typed
/// username, trimmed; otherwise for the selected entry.
pub proof fn lemma_the_conversation_is_for_who_is_chosen(s: ScreenView)
    requires
        spec_who(s.username, s.manual).len() > 0,
    ensures
        start_auth(s).1 == seq![
            CommandView::Arm(next_stamp(s.attempt)),
            CommandView::Authenticate(
                if s.username == other() {
                    trim(s.manual)
                } else {
                    s.username
                },
            ),
        ],
{
}

} // verus!
