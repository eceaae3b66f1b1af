//! The LightDM side of the greeter: what is made of what LightDM reports, and
//! what the greeter decides before and after each call into it.
//!
//! LightDM owns the VT, the X server, PAM, privilege dropping and starting the
//! desktop. The calls into `liblightdm-gobject` are made by the program around
//! this library; the lists it reads come here to be cleaned and ordered, and
//! every step of a login is planned and answered here.
use vstd::prelude::*;

use crate::order::{lex_le, sort_by_key, sorted_by_key, stable_sort_of, SortKey};
use crate::session::{kind_key, kind_mark, lemma_kind_then_name};
use crate::text::{chars_of, owned, str_eq, string_of};

verus! {

/// The username the UI sends to log in without an account, matching LightDM's
/// own spelling of it in `select-user-hint`.
pub open spec fn guest() -> Seq<char> {
    "*guest"@
}

/// Said whenever LightDM cannot be reached or will not act. Never a verdict on
/// a password.
pub open spec fn unavailable() -> Seq<char> {
    "Login is unavailable."@
}

/// Said when a power action is refused or fails.
pub open spec fn not_available() -> Seq<char> {
    "That is not available."@
}

/// Said when LightDM could not start the chosen session.
pub open spec fn session_failed() -> Seq<char> {
    "That session could not be started."@
}

/// `Login is unavailable.`, what the UI is told whenever LightDM cannot be
/// reached or will not act. Never a verdict on a password.
pub fn unavailable_message() -> (r: String)
    ensures
        r@ == unavailable(),
{
    owned("Login is unavailable.")
}

/// The connected greeter, or `UNAVAILABLE` when there is no LightDM to talk to
/// -- the normal state when the binary is run from a desktop to preview a
/// theme. Every step of the conversation goes through this first.
pub fn greeter<G>(connected: Option<G>) -> (r: Result<G, String>)
    ensures
        match connected {
            Some(g) => r == Ok::<G, String>(g),
            None => r matches Err(e) && e@ == unavailable(),
        },
{
    match connected {
        Some(g) => Ok(g),
        None => Err(unavailable_message()),
    }
}

/// Whether a text holds a NUL, which cannot cross into C.
pub open spec fn has_nul(s: Seq<char>) -> bool {
    exists|i: int| 0 <= i < s.len() && s[i] == '\0'
}

fn contains_nul(s: &str) -> (r: bool)
    ensures
        r == has_nul(s@),
{
    let chars = chars_of(s);
    let mut i: usize = 0;
    while i < chars.len()
        invariant
            i <= chars.len(),
            chars@ == s@,
            forall|m: int| 0 <= m < i ==> chars@[m] != '\0',
        decreases chars.len() - i,
    {
        if chars[i] == '\0' {
            return true;
        }
        i += 1;
    }
    false
}

/// Which LightDM call begins a login.
#[derive(Debug)]
pub enum Authentication {
    /// `lightdm_greeter_authenticate_as_guest`.
    Guest,
    /// `lightdm_greeter_authenticate` for this username.
    Account(String),
}

/// Begin authenticating `username`, or the guest account for `*guest`. A
/// username with a NUL cannot be sent, and is refused as `UNAVAILABLE`.
pub fn authentication(username: &str) -> (r: Result<Authentication, String>)
    ensures
        username@ == guest() ==> (r matches Ok(Authentication::Guest)),
        username@ != guest() && has_nul(username@) ==> (r matches Err(e) && e@ == unavailable()),
        username@ != guest() && !has_nul(username@) ==> (r matches Ok(Authentication::Account(u))
            && u@ == username@),
{
    if str_eq(username, "*guest") {
        return Ok(Authentication::Guest);
    }
    if contains_nul(username) {
        return Err(unavailable_message());
    }
    Ok(Authentication::Account(owned(username)))
}

/// The answer to the prompt that is showing, unless it holds a NUL: nothing
/// typeable produces one, so that is a malformed request, not a wrong password.
pub fn answer(text: String) -> (r: Result<String, String>)
    ensures
        !has_nul(text@) ==> r == Ok::<String, String>(text),
        has_nul(text@) ==> (r matches Err(e) && e@ == unavailable()),
{
    if contains_nul(text.as_str()) {
        Err(unavailable_message())
    } else {
        Ok(text)
    }
}

/// What the UI is told of a step of the conversation: LightDM's own failure
/// goes to the journal, and the UI hears `UNAVAILABLE`.
pub fn conversation_reply(outcome: Result<(), String>) -> (r: Result<(), String>)
    ensures
        outcome is Ok ==> r is Ok,
        outcome is Err ==> (r matches Err(e) && e@ == unavailable()),
{
    match outcome {
        Ok(()) => Ok(()),
        Err(_) => Err(unavailable_message()),
    }
}

/// Turns a `gboolean` result and the `GError` it may have set into a result:
/// success, the error's message, or `failed` when LightDM failed without
/// saying why.
pub fn check(succeeded: bool, message: Option<String>) -> (r: Result<(), String>)
    ensures
        succeeded ==> r is Ok,
        !succeeded ==> (r matches Err(e) && e@ == (match message {
            Some(m) => m@,
            None => "failed"@,
        })),
{
    if succeeded {
        Ok(())
    } else {
        match message {
            Some(m) => Err(m),
            None => Err(owned("failed")),
        }
    }
}

/// The language step of starting a session.
#[derive(Debug)]
pub enum LanguageStep {
    /// An empty language leaves the session's locale alone.
    Keep,
    /// `lightdm_greeter_set_language` with this locale.
    Apply(String),
    /// A locale with a NUL cannot be sent: reported, and the session starts
    /// anyway -- a session in the wrong locale beats no session.
    Rejected,
}

pub fn language_step(language: &str) -> (r: LanguageStep)
    ensures
        language@.len() == 0 ==> (r matches LanguageStep::Keep),
        language@.len() > 0 && has_nul(language@) ==> (r matches LanguageStep::Rejected),
        language@.len() > 0 && !has_nul(language@) ==> (r matches LanguageStep::Apply(l) && l@
            == language@),
{
    if language.is_empty() {
        LanguageStep::Keep
    } else if contains_nul(language) {
        LanguageStep::Rejected
    } else {
        LanguageStep::Apply(owned(language))
    }
}

/// The session to ask LightDM for: `None` (NULL, not "") asks for the seat's
/// own default; a key with a NUL is refused as `UNAVAILABLE`.
pub fn session_to_start(session: &str) -> (r: Result<Option<String>, String>)
    ensures
        has_nul(session@) ==> (r matches Err(e) && e@ == unavailable()),
        !has_nul(session@) && session@.len() == 0 ==> (r matches Ok(None)),
        !has_nul(session@) && session@.len() > 0 ==> (r matches Ok(Some(s)) && s@ == session@),
{
    if contains_nul(session) {
        Err(unavailable_message())
    } else if session.is_empty() {
        Ok(None)
    } else {
        Ok(Some(owned(session)))
    }
}

/// What the UI is told when starting the session failed.
pub fn session_reply(outcome: Result<(), String>) -> (r: Result<(), String>)
    ensures
        outcome is Ok ==> r is Ok,
        outcome is Err ==> (r matches Err(e) && e@ == session_failed()),
{
    match outcome {
        Ok(()) => Ok(()),
        Err(_) => Err(owned("That session could not be started.")),
    }
}

/// `LightDMPromptType`: 1 is a prompt for something that must not be echoed.
pub open spec fn prompt_secret() -> i32 {
    1
}

/// `LightDMMessageType`: 1 is PAM reporting a problem, not just informing.
pub open spec fn message_error() -> i32 {
    1
}

/// PAM is asking for something. The UI answers it with `respond` and nothing
/// else; it never decides for itself that an attempt succeeded.
#[derive(Debug)]
pub struct Prompt {
    pub text: String,
    /// A password, a PIN, a token code: type it into a field that does not echo.
    pub secret: bool,
}

/// PAM's own messages -- "your password expires in 3 days".
#[derive(Debug)]
pub struct Notice {
    pub text: String,
    pub error: bool,
}

/// LightDM's verdict on an attempt.
#[derive(Debug)]
pub struct Complete {
    pub authenticated: bool,
    /// Who LightDM ruled on, so a reply for an abandoned attempt can be ignored.
    pub user: String,
}

pub fn prompt(text: String, prompt_type: i32) -> (r: Prompt)
    ensures
        r.text == text,
        r.secret == (prompt_type == prompt_secret()),
{
    Prompt { text, secret: prompt_type == 1 }
}

pub fn notice(text: String, message_type: i32) -> (r: Notice)
    ensures
        r.text == text,
        r.error == (message_type == message_error()),
{
    Notice { text, error: message_type == 1 }
}

/// What LightDM told the greeter about the seat before it drew anything.
#[derive(Debug, Default)]
pub struct Hints {
    /// False when there is no LightDM: the UI still draws, but cannot log in.
    pub connected: bool,
    /// The seat forbids listing accounts; the username must be typed.
    pub hide_users: bool,
    /// Offer a "type a username" entry alongside the listed accounts.
    pub show_manual_login: bool,
    /// The session is locked behind this greeter rather than absent.
    pub lock: bool,
    pub has_guest_account: bool,
    /// The account LightDM wants selected -- the last one to log in, usually.
    pub select_user: String,
    pub select_guest: bool,
    pub default_session: String,
    pub autologin_user: String,
    pub autologin_session: String,
    pub autologin_guest: bool,
    /// Seconds before LightDM logs the autologin account in by itself.
    pub autologin_timeout: i32,
    pub hostname: String,
    pub os: String,
}

/// The hints a connected greeter reads from LightDM's seat.
#[derive(Debug)]
pub struct SeatHints {
    pub hide_users: bool,
    pub show_manual_login: bool,
    pub lock: bool,
    pub has_guest_account: bool,
    pub select_user: String,
    pub select_guest: bool,
    pub default_session: String,
    pub autologin_user: String,
    pub autologin_session: String,
    pub autologin_guest: bool,
    pub autologin_timeout: i32,
}

/// The hints for the UI: the machine's hostname and OS name always -- so it
/// can draw and explain itself -- and the seat's hints when there is a LightDM
/// to read them from; without one, `connected` is false and every seat hint is
/// off or empty.
pub fn hints(hostname: String, os: String, seat: Option<SeatHints>) -> (r: Hints)
    ensures
        r.hostname == hostname,
        r.os == os,
        r.connected == seat is Some,
        match seat {
            Some(s) => {
                &&& r.hide_users == s.hide_users
                &&& r.show_manual_login == s.show_manual_login
                &&& r.lock == s.lock
                &&& r.has_guest_account == s.has_guest_account
                &&& r.select_user == s.select_user
                &&& r.select_guest == s.select_guest
                &&& r.default_session == s.default_session
                &&& r.autologin_user == s.autologin_user
                &&& r.autologin_session == s.autologin_session
                &&& r.autologin_guest == s.autologin_guest
                &&& r.autologin_timeout == s.autologin_timeout
            },
            None => {
                &&& !r.hide_users && !r.show_manual_login && !r.lock && !r.has_guest_account
                &&& r.select_user@.len() == 0 && !r.select_guest
                &&& r.default_session@.len() == 0
                &&& r.autologin_user@.len() == 0 && r.autologin_session@.len() == 0
                &&& !r.autologin_guest && r.autologin_timeout == 0
            },
        },
{
    match seat {
        Some(s) => Hints {
            connected: true,
            hide_users: s.hide_users,
            show_manual_login: s.show_manual_login,
            lock: s.lock,
            has_guest_account: s.has_guest_account,
            select_user: s.select_user,
            select_guest: s.select_guest,
            default_session: s.default_session,
            autologin_user: s.autologin_user,
            autologin_session: s.autologin_session,
            autologin_guest: s.autologin_guest,
            autologin_timeout: s.autologin_timeout,
            hostname,
            os,
        },
        None => Hints {
            connected: false,
            hide_users: false,
            show_manual_login: false,
            lock: false,
            has_guest_account: false,
            select_user: String::new(),
            select_guest: false,
            default_session: String::new(),
            autologin_user: String::new(),
            autologin_session: String::new(),
            autologin_guest: false,
            autologin_timeout: 0,
            hostname,
            os,
        },
    }
}

/// An item of a list LightDM reports that is worth offering.
pub trait Listed: Sized {
    spec fn listed(&self) -> bool;

    fn is_listed(&self) -> (r: bool)
        ensures
            r == self.listed(),
    ;
}

/// The predicate `listed`.
pub open spec fn listed_pred<T: Listed>() -> spec_fn(T) -> bool {
    |x: T| x.listed()
}

/// The items of `items` worth offering, in order.
pub fn retain_listed<T: Listed>(items: Vec<T>) -> (out: Vec<T>)
    ensures
        out@ == items@.filter(listed_pred::<T>()),
{
    let ghost orig = items@;
    let total = items.len();
    let mut rest = items;
    let mut out: Vec<T> = Vec::new();
    let mut k: usize = 0;
    while rest.len() > 0
        invariant
            k + rest@.len() == orig.len(),
            total == orig.len(),
            rest@ == orig.skip(k as int),
            out@ == orig.take(k as int).filter(listed_pred::<T>()),
        decreases rest.len(),
    {
        let x = rest.remove(0);
        proof {
            reveal_with_fuel(Seq::filter, 1);
            assert(orig.take(k + 1).drop_last() =~= orig.take(k as int));
            assert(orig.take(k + 1).last() == x);
        }
        if x.is_listed() {
            out.push(x);
        }
        k += 1;
        assert(rest@ =~= orig.skip(k as int));
    }
    assert(orig.take(k as int) =~= orig);
    out
}

/// An account LightDM is willing to show.
#[derive(Debug)]
pub struct User {
    pub name: String,
    /// LightDM's own display name: the GECOS full name, or the account name.
    pub display_name: String,
    /// Path to the account's picture, if it has one.
    pub image: String,
    /// The session this account used last, so it comes back preselected.
    pub session: String,
    pub language: String,
    pub layout: String,
    /// Already has a session running on another VT; logging in switches to it.
    pub logged_in: bool,
}

impl Listed for User {
    /// An account with no name is not one LightDM can log in.
    open spec fn listed(&self) -> bool {
        self.name@.len() > 0
    }

    fn is_listed(&self) -> (r: bool) {
        !self.name.as_str().is_empty()
    }
}

impl SortKey for User {
    open spec fn sort_key(&self) -> Seq<char> {
        self.name@
    }

    fn key_chars(&self) -> (k: Vec<char>) {
        chars_of(self.name.as_str())
    }
}

/// The accounts LightDM listed, nameless ones dropped, sorted by name.
pub fn users(listed: Vec<User>) -> (out: Vec<User>)
    ensures
        stable_sort_of(out@, listed@.filter(listed_pred::<User>())),
{
    sort_by_key(retain_listed(listed))
}

/// A desktop session LightDM can start.
#[derive(Debug)]
pub struct Session {
    /// LightDM's session key -- the `.desktop` file stem. What `start_session`
    /// takes.
    pub key: String,
    /// LightDM's own name for it, shown as-is.
    pub name: String,
    /// Not displayed; this is what puts Wayland sessions first, and so decides
    /// the fallback when neither the user nor LightDM names one.
    pub wayland: bool,
}

impl Listed for Session {
    /// An empty key is a session LightDM cannot start.
    open spec fn listed(&self) -> bool {
        self.key@.len() > 0 && self.name@.len() > 0
    }

    fn is_listed(&self) -> (r: bool) {
        !self.key.as_str().is_empty() && !self.name.as_str().is_empty()
    }
}

impl SortKey for Session {
    /// Sorted as the pair (X11?, name), Wayland first.
    open spec fn sort_key(&self) -> Seq<char> {
        seq![kind_mark(self.wayland)] + self.name@
    }

    fn key_chars(&self) -> (k: Vec<char>) {
        kind_key(self.wayland, &self.name)
    }
}

/// A session is a Wayland one when LightDM reports its type as `wayland`.
pub fn is_wayland(session_type: &str) -> (r: bool)
    ensures
        r == (session_type@ == "wayland"@),
{
    str_eq(session_type, "wayland")
}

/// Desktop sessions LightDM can start, Wayland first then X11, alphabetical
/// within each. An empty list is a normal result, not an error.
pub fn sessions(listed: Vec<Session>) -> (out: Vec<Session>)
    ensures
        stable_sort_of(out@, listed@.filter(listed_pred::<Session>())),
{
    sort_by_key(retain_listed(listed))
}

/// LightDM's sessions in the order `sessions` gives them: every Wayland
/// session before every X11 one, and alphabetical within each kind -- so the
/// head of the list, the fallback when neither the account nor LightDM names
/// a session, is a Wayland one whenever there is one.
pub proof fn lemma_listed_sessions_wayland_first(s: Seq<Session>, i: int, j: int)
    requires
        sorted_by_key(s),
        0 <= i < j < s.len(),
    ensures
        s[j].wayland ==> s[i].wayland,
        s[i].wayland == s[j].wayland ==> lex_le(s[i].name@, s[j].name@),
{
    assert(lex_le(s[i].sort_key(), s[j].sort_key()));
    lemma_kind_then_name(s[i].wayland, s[i].name@, s[j].wayland, s[j].name@);
}

/// A keyboard layout.
#[derive(Debug)]
pub struct Layout {
    /// The XKB name, `gb` or `de neo`. What `set_layout` takes.
    pub name: String,
    pub description: String,
}

impl Listed for Layout {
    open spec fn listed(&self) -> bool {
        self.name@.len() > 0
    }

    fn is_listed(&self) -> (r: bool) {
        !self.name.as_str().is_empty()
    }
}

impl SortKey for Layout {
    open spec fn sort_key(&self) -> Seq<char> {
        self.description@
    }

    fn key_chars(&self) -> (k: Vec<char>) {
        chars_of(self.description.as_str())
    }
}

/// The keyboard layouts LightDM knows, nameless ones dropped, by description.
pub fn layouts(listed: Vec<Layout>) -> (out: Vec<Layout>)
    ensures
        stable_sort_of(out@, listed@.filter(listed_pred::<Layout>())),
{
    sort_by_key(retain_listed(listed))
}

/// The first of `names` equal to `name`: the layout `set_layout` switches to.
/// None means there is no such layout, which is reported and changes nothing.
pub fn layout_position(names: &Vec<String>, name: &str) -> (r: Option<usize>)
    ensures
        match r {
            Some(i) => i < names@.len() && names@[i as int]@ == name@ && forall|m: int|
                0 <= m < i ==> names@[m]@ != name@,
            None => forall|m: int| 0 <= m < names@.len() ==> names@[m]@ != name@,
        },
{
    let mut i: usize = 0;
    while i < names.len()
        invariant
            i <= names.len(),
            forall|m: int| 0 <= m < i ==> names@[m]@ != name@,
        decreases names.len() - i,
    {
        if str_eq(names[i].as_str(), name) {
            return Some(i);
        }
        i += 1;
    }
    None
}

/// A locale on offer.
#[derive(Debug)]
pub struct Language {
    /// The locale, `en_GB.UTF-8`. What `start_session` passes to LightDM.
    pub code: String,
    /// "English", plus the territory where the language has more than one.
    pub name: String,
}

impl Listed for Language {
    open spec fn listed(&self) -> bool {
        self.code@.len() > 0 && self.name@.len() > 0
    }

    fn is_listed(&self) -> (r: bool) {
        !self.code.as_str().is_empty() && !self.name.as_str().is_empty()
    }
}

impl SortKey for Language {
    open spec fn sort_key(&self) -> Seq<char> {
        self.name@
    }

    fn key_chars(&self) -> (k: Vec<char>) {
        chars_of(self.name.as_str())
    }
}

/// The name shown for a language: "English" alone is ambiguous once en_GB and
/// en_US are both installed, so the territory follows in brackets when there
/// is one.
pub open spec fn language_label(name: Seq<char>, territory: Seq<char>) -> Seq<char> {
    if territory.len() == 0 {
        name
    } else {
        name + " ("@ + territory + ")"@
    }
}

pub fn describe_language(code: String, name: String, territory: String) -> (r: Language)
    ensures
        r.code == code,
        r.name@ == language_label(name@, territory@),
{
    if territory.as_str().is_empty() {
        Language { code, name }
    } else {
        let mut label = name;
        label.append(" (");
        label.append(territory.as_str());
        label.append(")");
        Language { code, name: label }
    }
}

/// `Vec::dedup_by` on the locale code: of each run of neighbours with one code,
/// only the first stays.
pub open spec fn dedup_by_code(s: Seq<Language>) -> Seq<Language>
    decreases s.len(),
{
    if s.len() == 0 {
        s
    } else {
        let kept = dedup_by_code(s.drop_last());
        if kept.len() > 0 && kept.last().code@ == s.last().code@ {
            kept
        } else {
            kept.push(s.last())
        }
    }
}

fn dedup_languages(items: Vec<Language>) -> (out: Vec<Language>)
    ensures
        out@ == dedup_by_code(items@),
{
    let ghost orig = items@;
    let total = items.len();
    let mut rest = items;
    let mut out: Vec<Language> = Vec::new();
    let mut k: usize = 0;
    assert(orig.take(0) =~= Seq::<Language>::empty());
    while rest.len() > 0
        invariant
            k + rest@.len() == orig.len(),
            total == orig.len(),
            rest@ == orig.skip(k as int),
            out@ == dedup_by_code(orig.take(k as int)),
        decreases rest.len(),
    {
        let x = rest.remove(0);
        proof {
            assert(orig.take(k + 1).drop_last() =~= orig.take(k as int));
            assert(orig.take(k + 1).last() == x);
        }
        let n = out.len();
        let duplicate = n > 0 && str_eq(out[n - 1].code.as_str(), x.code.as_str());
        if !duplicate {
            out.push(x);
        }
        k += 1;
        assert(rest@ =~= orig.skip(k as int));
    }
    assert(orig.take(k as int) =~= orig);
    out
}

/// The locales this machine has, for the session about to start: ones without
/// a code or a name dropped, sorted by name, then one per run of equal codes.
pub fn languages(listed: Vec<Language>) -> (out: Vec<Language>)
    ensures
        exists|sorted: Seq<Language>|
            stable_sort_of(sorted, listed@.filter(listed_pred::<Language>())) && out@
                == dedup_by_code(sorted),
{
    let sorted = sort_by_key(retain_listed(listed));
    dedup_languages(sorted)
}

/// A power action.
#[derive(Debug, Clone, Copy, PartialEq, Eq)]
pub enum Action {
    Suspend,
    Hibernate,
    Reboot,
    Shutdown,
}

/// Each action's name names it and no other, so the name the UI is sent for
/// an action is read back, by `from_name`, as that same action.
pub proof fn lemma_action_names_round_trip(a: Action, b: Action)
    ensures
        spec_action_name(a) == spec_action_name(b) ==> a == b,
{
    reveal_strlit("suspend");
    reveal_strlit("hibernate");
    reveal_strlit("reboot");
    reveal_strlit("shutdown");
    if spec_action_name(a) == spec_action_name(b) {
        assert(spec_action_name(a).len() == spec_action_name(b).len());
        assert(spec_action_name(a).len() == match a {
            Action::Suspend => 7int,
            Action::Hibernate => 9int,
            Action::Reboot => 6int,
            Action::Shutdown => 8int,
        });
        assert(spec_action_name(b).len() == match b {
            Action::Suspend => 7int,
            Action::Hibernate => 9int,
            Action::Reboot => 6int,
            Action::Shutdown => 8int,
        });
    }
}

/// The four actions, in the order the UI offers them.
pub open spec fn all_actions() -> Seq<Action> {
    seq![Action::Suspend, Action::Hibernate, Action::Reboot, Action::Shutdown]
}

/// The name the UI sends for each action: the variant's name in lower case.
pub open spec fn spec_action_name(action: Action) -> Seq<char> {
    match action {
        Action::Suspend => "suspend"@,
        Action::Hibernate => "hibernate"@,
        Action::Reboot => "reboot"@,
        Action::Shutdown => "shutdown"@,
    }
}

impl Action {
    /// The name the UI sends and is sent.
    pub fn name(self) -> (name: &'static str)
        ensures
            name@ == spec_action_name(self),
    {
        match self {
            Action::Suspend => "suspend",
            Action::Hibernate => "hibernate",
            Action::Reboot => "reboot",
            Action::Shutdown => "shutdown",
        }
    }

    /// The action the UI named, or nothing for a name it cannot send.
    pub fn from_name(name: &str) -> (r: Option<Action>)
        ensures
            match r {
                Some(action) => spec_action_name(action) == name@,
                None => forall|action: Action| spec_action_name(action) != name@,
            },
    {
        if str_eq(name, "suspend") {
            Some(Action::Suspend)
        } else if str_eq(name, "hibernate") {
            Some(Action::Hibernate)
        } else if str_eq(name, "reboot") {
            Some(Action::Reboot)
        } else if str_eq(name, "shutdown") {
            Some(Action::Shutdown)
        } else {
            assert forall|action: Action| spec_action_name(action) != name@ by {
                match action {
                    Action::Suspend => {},
                    Action::Hibernate => {},
                    Action::Reboot => {},
                    Action::Shutdown => {},
                }
            }
            None
        }
    }

    /// The four actions, in the order the UI offers them.
    pub fn all() -> (r: Vec<Action>)
        ensures
            r@ == all_actions(),
    {
        let r = vec![Action::Suspend, Action::Hibernate, Action::Reboot, Action::Shutdown];
        assert(r@ =~= all_actions());
        r
    }
}

/// What logind says it would do if asked (`lightdm_get_can_*`).
#[derive(Debug, Clone, Copy)]
pub struct Capabilities {
    pub suspend: bool,
    pub hibernate: bool,
    pub restart: bool,
    pub shutdown: bool,
}

/// Whether logind would perform `action`.
pub open spec fn allows(can: Capabilities, action: Action) -> bool {
    match action {
        Action::Suspend => can.suspend,
        Action::Hibernate => can.hibernate,
        Action::Reboot => can.restart,
        Action::Shutdown => can.shutdown,
    }
}

impl Capabilities {
    pub fn available(&self, action: Action) -> (r: bool)
        ensures
            r == allows(*self, action),
    {
        match action {
            Action::Suspend => self.suspend,
            Action::Hibernate => self.hibernate,
            Action::Reboot => self.restart,
            Action::Shutdown => self.shutdown,
        }
    }
}

/// Which power actions this machine will actually perform, so the UI can leave
/// out the ones it would only have to refuse: of the four, in order, those
/// logind allows.
pub fn power_actions(can: Capabilities) -> (r: Vec<Action>)
    ensures
        r@ == all_actions().filter(|a: Action| allows(can, a)),
        forall|a: Action| r@.contains(a) <==> allows(can, a),
{
    let all = Action::all();
    let ghost pred = |a: Action| allows(can, a);
    let mut r: Vec<Action> = Vec::new();
    let mut i: usize = 0;
    while i < all.len()
        invariant
            i <= all.len(),
            all@ == all_actions(),
            pred == (|a: Action| allows(can, a)),
            r@ == all_actions().take(i as int).filter(pred),
        decreases all.len() - i,
    {
        proof {
            reveal_with_fuel(Seq::filter, 1);
            assert(all_actions().take(i + 1).drop_last() =~= all_actions().take(i as int));
        }
        if can.available(all[i]) {
            r.push(all[i]);
        }
        i += 1;
    }
    assert(all_actions().take(4) =~= all_actions());
    proof {
        broadcast use vstd::seq_lib::group_filter_ensures;

        assert forall|a: Action| r@.contains(a) <==> allows(can, a) by {
            if allows(can, a) {
                let i = match a {
                    Action::Suspend => 0int,
                    Action::Hibernate => 1int,
                    Action::Reboot => 2int,
                    Action::Shutdown => 3int,
                };
                assert(all_actions()[i] == a);
                all_actions().lemma_filter_contains(pred, i);
            }
            if r@.contains(a) {
                let j = choose|j: int| 0 <= j < r@.len() && r@[j] == a;
                all_actions().lemma_filter_pred(pred, j);
            }
        }
    }
    r
}

/// Before a power action is handed to LightDM: refused with `That is not
/// available.` unless logind allows it.
pub fn power_permitted(can: Capabilities, action: Action) -> (r: Result<(), String>)
    ensures
        allows(can, action) ==> r is Ok,
        !allows(can, action) ==> (r matches Err(e) && e@ == not_available()),
{
    if can.available(action) {
        Ok(())
    } else {
        Err(owned("That is not available."))
    }
}

/// What the UI is told after LightDM performed, or failed, a power action.
pub fn power_reply(outcome: Result<(), String>) -> (r: Result<(), String>)
    ensures
        outcome is Ok ==> r is Ok,
        outcome is Err ==> (r matches Err(e) && e@ == not_available()),
{
    match outcome {
        Ok(()) => Ok(()),
        Err(_) => Err(owned("That is not available.")),
    }
}

/// The text of a C string LightDM returned, as `string` reads it: empty for
/// NULL.
pub fn text_or_empty(value: Option<String>) -> (r: String)
    ensures
        match value {
            Some(v) => r == v,
            None => r@.len() == 0,
        },
{
    match value {
        Some(v) => v,
        None => String::new(),
    }
}

/// Each power action is allowed exactly when logind's answer for it says so,
/// so the actions offered are exactly the ones logind would perform.
pub proof fn lemma_each_action_follows_logind(can: Capabilities)
    ensures
        allows(can, Action::Suspend) == can.suspend,
        allows(can, Action::Hibernate) == can.hibernate,
        allows(can, Action::Reboot) == can.restart,
        allows(can, Action::Shutdown) == can.shutdown,
{
}

} // verus!
