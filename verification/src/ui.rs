//! The login screen's decisions: which account is preselected, which session,
//! keyboard layout and language come back with it, what the prompt field
//! says, and which controls are drawn at all.
use vstd::prelude::*;

use crate::greeter::Account;
use crate::lightdm::{guest, Hints, Session};
use crate::text::{chars_of, owned, push_decimal, decimal, str_eq, string_of, trim, trim_chars,
    starts_with, starts_with_chars};

verus! {

/// The account picker's entry for typing a username.
pub open spec fn other() -> Seq<char> {
    "*other"@
}

/// The only thing a rejected login is ever told on screen.
pub open spec fn rejected() -> Seq<char> {
    "Authentication failed."@
}

/// The theme the greeter starts on, when it is installed.
pub open spec fn default_theme() -> Seq<char> {
    "nebula"@
}

/// The first listed account named `name`.
pub open spec fn find_account(accounts: Seq<Account>, name: Seq<char>) -> Option<Account>
    decreases accounts.len(),
{
    if accounts.len() == 0 {
        None
    } else if accounts[0].user.name@ == name {
        Some(accounts[0])
    } else {
        find_account(accounts.drop_first(), name)
    }
}

fn find_account_index(accounts: &Vec<Account>, name: &str) -> (r: Option<usize>)
    ensures
        match find_account(accounts@, name@) {
            None => r is None,
            Some(a) => r matches Some(i) && i < accounts@.len() && accounts@[i as int] == a,
        },
{
    let mut i: usize = 0;
    assert(accounts@.skip(0) =~= accounts@);
    while i < accounts.len()
        invariant
            i <= accounts.len(),
            find_account(accounts@, name@) == find_account(accounts@.skip(i as int), name@),
        decreases accounts.len() - i,
    {
        assert(accounts@.skip(i as int)[0] == accounts@[i as int]);
        if str_eq(accounts[i].user.name.as_str(), name) {
            return Some(i);
        }
        assert(accounts@.skip(i as int).drop_first() =~= accounts@.skip(i + 1));
        i += 1;
    }
    None
}

/// Who is preselected: nobody (the typed-name entry) on a seat that hides its
/// accounts; the guest session when the seat selects it and has one; LightDM's
/// memory of who logged in last, when that account is listed; else the first
/// account, or the typed-name entry when there is none.
pub open spec fn spec_preselect(h: Hints, accounts: Seq<Account>) -> Seq<char> {
    if h.hide_users {
        other()
    } else if h.select_guest && h.has_guest_account {
        guest()
    } else if find_account(accounts, h.select_user@) is Some {
        h.select_user@
    } else if accounts.len() > 0 {
        accounts[0].user.name@
    } else {
        other()
    }
}

pub fn preselect(hints: &Hints, accounts: &Vec<Account>) -> (r: String)
    ensures
        r@ == spec_preselect(*hints, accounts@),
{
    if hints.hide_users {
        owned("*other")
    } else if hints.select_guest && hints.has_guest_account {
        owned("*guest")
    } else if find_account_index(accounts, hints.select_user.as_str()).is_some() {
        hints.select_user.clone()
    } else if accounts.len() > 0 {
        accounts[0].user.name.clone()
    } else {
        owned("*other")
    }
}

/// Whether `sessions` offers `key`.
pub open spec fn offers(sessions: Seq<Session>, key: Seq<char>) -> bool {
    exists|i: int| 0 <= i < sessions.len() && sessions[i].key@ == key
}

fn offers_key(sessions: &Vec<Session>, key: &str) -> (r: bool)
    ensures
        r == offers(sessions@, key@),
{
    let mut i: usize = 0;
    while i < sessions.len()
        invariant
            i <= sessions.len(),
            forall|m: int| 0 <= m < i ==> sessions@[m].key@ != key@,
        decreases sessions.len() - i,
    {
        if str_eq(sessions[i].key.as_str(), key) {
            return true;
        }
        i += 1;
    }
    false
}

/// Where the session, keyboard and language pickers point once an account is
/// chosen. `None` leaves a picker where it is.
#[derive(Debug)]
pub struct Preference {
    pub layout: Option<String>,
    pub language: Option<String>,
    pub session: Option<String>,
}

/// What this account used last, falling back to LightDM's seat default and
/// then to the first entry: the account's layout and language when it has
/// them; its last session if that is still offered, else LightDM's default
/// session if offered, else the first session (the list is sorted Wayland
/// first, so its head is the best guess left).
pub open spec fn preferred_session(
    account: Option<Account>,
    sessions: Seq<Session>,
    default_session: Seq<char>,
) -> Option<Seq<char>> {
    if account is Some && offers(sessions, account.unwrap().user.session@) {
        Some(account.unwrap().user.session@)
    } else if offers(sessions, default_session) {
        Some(default_session)
    } else if sessions.len() > 0 {
        Some(sessions[0].key@)
    } else {
        None
    }
}

/// A remembered setting, when the account has one.
pub open spec fn remembered(account: Option<Account>, value: spec_fn(Account) -> Seq<char>) -> Option<
    Seq<char>,
> {
    match account {
        Some(a) => if value(a).len() > 0 {
            Some(value(a))
        } else {
            None
        },
        None => None,
    }
}

pub open spec fn opt_view(o: Option<String>) -> Option<Seq<char>> {
    match o {
        Some(s) => Some(s@),
        None => None,
    }
}

fn non_empty(value: &String) -> (r: Option<String>)
    ensures
        value@.len() > 0 ==> r == Some(*value),
        value@.len() == 0 ==> r is None,
{
    if value.as_str().is_empty() {
        None
    } else {
        Some(value.clone())
    }
}

/// Point the session, keyboard and language pickers at what the account
/// `name` used last. Getting this wrong is how a greeter makes someone re-pick
/// their desktop every morning.
pub fn prefer(name: &str, accounts: &Vec<Account>, sessions: &Vec<Session>, hints: &Hints) -> (r:
    Preference)
    ensures
        ({
            let account = find_account(accounts@, name@);
            &&& opt_view(r.layout) == remembered(account, |a: Account| a.user.layout@)
            &&& opt_view(r.language) == remembered(account, |a: Account| a.user.language@)
            &&& opt_view(r.session) == preferred_session(
                account,
                sessions@,
                hints.default_session@,
            )
        }),
{
    let found = find_account_index(accounts, name);
    let (layout, language, last_session) = match found {
        Some(i) => {
            let a = &accounts[i];
            (non_empty(&a.user.layout), non_empty(&a.user.language), Some(a.user.session.clone()))
        },
        None => (None, None, None),
    };
    let session = match last_session {
        Some(s) if offers_key(sessions, s.as_str()) => Some(s),
        _ => {
            if offers_key(sessions, hints.default_session.as_str()) {
                Some(hints.default_session.clone())
            } else if sessions.len() > 0 {
                Some(sessions[0].key.clone())
            } else {
                None
            }
        },
    };
    Preference { layout, language, session }
}

/// Who a conversation is for: the selected account or guest entry, or
/// whatever was typed when the typed-name entry is selected, trimmed.
pub fn who(selected: &str, typed: &str) -> (r: String)
    ensures
        selected@ == other() ==> r@ == trim(typed@),
        selected@ != other() ==> r@ == selected@,
{
    if str_eq(selected, "*other") {
        let chars = chars_of(typed);
        let trimmed = trim_chars(&chars);
        string_of(&trimmed)
    } else {
        owned(selected)
    }
}

/// `str::trim_end_matches(':')`.
pub open spec fn trim_colons(s: Seq<char>) -> Seq<char>
    decreases s.len(),
{
    if s.len() > 0 && s.last() == ':' {
        trim_colons(s.drop_last())
    } else {
        s
    }
}

/// The prompt field's placeholder: PAM writes "Password: ", and the colon is
/// the label's job, not the text's; with no prompt showing, "Password".
pub open spec fn spec_placeholder(prompt: Option<Seq<char>>) -> Seq<char> {
    match prompt {
        Some(text) => trim(trim_colons(trim(text))),
        None => "Password"@,
    }
}

pub fn placeholder(prompt: Option<&str>) -> (r: String)
    ensures
        r@ == spec_placeholder(
            match prompt {
                Some(t) => Some(t@),
                None => None,
            },
        ),
{
    match prompt {
        None => owned("Password"),
        Some(text) => {
            let chars = chars_of(text);
            let trimmed = trim_chars(&chars);
            let mut j = trimmed.len();
            assert(trimmed@.take(j as int) =~= trimmed@);
            while j > 0 && trimmed[j - 1] == ':'
                invariant
                    j <= trimmed.len(),
                    trim_colons(trimmed@) == trim_colons(trimmed@.take(j as int)),
                decreases j,
            {
                assert(trimmed@.take(j as int).drop_last() =~= trimmed@.take(j - 1));
                j -= 1;
            }
            let cut = crate::text::copy_range(&trimmed, 0, j);
            assert(cut@ =~= trimmed@.take(j as int));
            let result = trim_chars(&cut);
            string_of(&result)
        },
    }
}

/// The account picker is drawn unless the seat hides its accounts, and only
/// when there is something to pick: an account, or the guest session.
pub fn shows_account_picker(hints: &Hints, account_count: usize) -> (r: bool)
    ensures
        r == (!hints.hide_users && (account_count > 0 || hints.has_guest_account)),
{
    !hints.hide_users && (account_count > 0 || hints.has_guest_account)
}

/// The typed-name entry is offered when the seat asks for it, or when there
/// is no account to pick.
pub fn offers_typed_name(hints: &Hints, account_count: usize) -> (r: bool)
    ensures
        r == (hints.show_manual_login || account_count == 0),
{
    hints.show_manual_login || account_count == 0
}

/// The countdown LightDM's autologin starts from, in seconds: its timeout when
/// there is an account (or the guest session) to log in, and nothing (0)
/// otherwise.
pub fn autologin_countdown(hints: &Hints) -> (r: i32)
    ensures
        r == (if hints.autologin_timeout > 0 && (hints.autologin_user@.len() > 0
            || hints.autologin_guest) {
            hints.autologin_timeout
        } else {
            0
        }),
{
    if hints.autologin_timeout > 0 && (!hints.autologin_user.as_str().is_empty()
        || hints.autologin_guest) {
        hints.autologin_timeout
    } else {
        0
    }
}

/// What the countdown says while it runs.
pub open spec fn spec_countdown_text(autologin_user: Seq<char>, seconds: nat) -> Seq<char> {
    let who = if autologin_user.len() == 0 {
        "guest"@
    } else {
        autologin_user
    };
    "Logging in as "@ + who + " in "@ + decimal(seconds) + "s \u{2014} press any key to stay here."@
}

pub fn countdown_text(autologin_user: &str, seconds: u32) -> (r: String)
    ensures
        r@ == spec_countdown_text(autologin_user@, seconds as nat),
{
    let mut r = owned("Logging in as ");
    if autologin_user.is_empty() {
        r.append("guest");
    } else {
        r.append(autologin_user);
    }
    r.append(" in ");
    push_decimal(&mut r, seconds);
    r.append("s \u{2014} press any key to stay here.");
    r
}

/// How an account appears in the picker: its display name, and that it is
/// already logged in when it has a session running.
pub fn account_label(account: &Account) -> (r: String)
    ensures
        account.user.logged_in ==> r@ == account.user.display_name@ + " \u{2014} logged in"@,
        !account.user.logged_in ==> r@ == account.user.display_name@,
{
    let mut r = account.user.display_name.clone();
    if account.user.logged_in {
        r.append(" \u{2014} logged in");
    }
    r
}

/// The label and glyph (an SVG path) for each power action the backend
/// offered. Unknown names cannot appear, but one would draw as "Shut Down".
pub open spec fn spec_describes(action: Seq<char>) -> (Seq<char>, Seq<char>) {
    if action == "suspend"@ {
        ("Sleep"@, "M20 14.5A8.5 8.5 0 0 1 9.5 4 8.5 8.5 0 1 0 20 14.5z"@)
    } else if action == "hibernate"@ {
        ("Hibernate"@, "M12 3v18M4.2 7.5l15.6 9M19.8 7.5l-15.6 9"@)
    } else if action == "reboot"@ {
        ("Restart"@, "M20 12a8 8 0 1 1-2.3-5.7M20.5 3.5v4h-4"@)
    } else {
        ("Shut Down"@, "M12 3.5v8.5M6.3 6.3a8 8 0 1 0 11.4 0"@)
    }
}

pub fn describes(action: &str) -> (r: (&'static str, &'static str))
    ensures
        (r.0@, r.1@) == spec_describes(action@),
{
    if str_eq(action, "suspend") {
        ("Sleep", "M20 14.5A8.5 8.5 0 0 1 9.5 4 8.5 8.5 0 1 0 20 14.5z")
    } else if str_eq(action, "hibernate") {
        ("Hibernate", "M12 3v18M4.2 7.5l15.6 9M19.8 7.5l-15.6 9")
    } else if str_eq(action, "reboot") {
        ("Restart", "M20 12a8 8 0 1 1-2.3-5.7M20.5 3.5v4h-4")
    } else {
        ("Shut Down", "M12 3.5v8.5M6.3 6.3a8 8 0 1 0 11.4 0")
    }
}

/// True in the windows opened on the non-primary monitors: their label starts
/// with `backdrop`.
pub fn is_backdrop(label: Option<&str>) -> (r: bool)
    ensures
        r == (match label {
            Some(l) => starts_with(l@, "backdrop"@),
            None => false,
        }),
{
    match label {
        None => false,
        Some(l) => {
            let chars = chars_of(l);
            let prefix = chars_of("backdrop");
            starts_with_chars(&chars, &prefix)
        },
    }
}

/// The label of the backdrop window on the `index`-th non-primary monitor.
pub fn backdrop_label(index: u32) -> (r: String)
    ensures
        r@ == "backdrop-"@ + decimal(index as nat),
{
    let mut r = owned("backdrop-");
    push_decimal(&mut r, index);
    r
}

/// The monitors that get a backdrop window: every one not at the primary
/// monitor's position, in the order they are listed.
pub open spec fn spec_backdrop_monitors(positions: Seq<(i32, i32)>, primary: (i32, i32)) -> Seq<
    int,
> {
    Seq::new(positions.len(), |i: int| i).filter(off_primary(positions, primary))
}

/// Whether the `i`-th monitor is somewhere other than the primary one.
pub open spec fn off_primary(positions: Seq<(i32, i32)>, primary: (i32, i32)) -> spec_fn(int) -> bool {
    |i: int| positions[i] != primary
}

/// Indices into `positions` (each monitor's top-left corner) of the monitors
/// that are not the primary one: the `k`-th of them gets the window labelled
/// `backdrop_label(k)`, so a second screen is part of the backdrop rather than
/// a second login form.
pub fn backdrop_monitors(positions: &Vec<(i32, i32)>, primary: (i32, i32)) -> (r: Vec<usize>)
    ensures
        r@.map_values(|i: usize| i as int) == spec_backdrop_monitors(positions@, primary),
{
    let ghost all = Seq::new(positions@.len(), |i: int| i);
    let mut r: Vec<usize> = Vec::new();
    let mut i: usize = 0;
    while i < positions.len()
        invariant
            i <= positions.len(),
            all == Seq::new(positions@.len(), |i: int| i),
            r@.map_values(|i: usize| i as int) == all.take(i as int).filter(
                off_primary(positions@, primary),
            ),
        decreases positions.len() - i,
    {
        proof {
            assert(all.take(i + 1).drop_last() =~= all.take(i as int));
            assert(all.take(i + 1).last() == i as int);
            reveal_with_fuel(Seq::filter, 1);
        }
        let ghost before = r@.map_values(|i: usize| i as int);
        let (x, y) = positions[i];
        if !(x == primary.0 && y == primary.1) {
            r.push(i);
            assert(r@.map_values(|i: usize| i as int) =~= before.push(i as int));
        } else {
            assert(positions@[i as int] == primary);
        }
        i += 1;
    }
    assert(all.take(positions.len() as int) =~= all);
    r
}

/// The theme the picker starts on: `nebula` when it is installed, else none
/// (the stylesheet built into the greeter draws).
pub fn starting_theme(names: &Vec<String>) -> (r: Option<String>)
    ensures
        (exists|i: int| 0 <= i < names@.len() && names@[i]@ == default_theme()) ==> (r matches Some(
            t,
        ) && t@ == default_theme()),
        !(exists|i: int| 0 <= i < names@.len() && names@[i]@ == default_theme()) ==> r is None,
{
    let mut i: usize = 0;
    while i < names.len()
        invariant
            i <= names.len(),
            forall|m: int| 0 <= m < i ==> names@[m]@ != default_theme(),
        decreases names.len() - i,
    {
        if str_eq(names[i].as_str(), "nebula") {
            return Some(owned("nebula"));
        }
        i += 1;
    }
    None
}

/// A session is offered by its LightDM key, not its display name.
pub proof fn lemma_offered_by_key(sessions: Seq<Session>, key: Seq<char>)
    ensures
        offers(sessions, key) <==> exists|i: int| 0 <= i < sessions.len() && #[trigger] sessions[i].key@ == key,
{
}

/// The account's last session comes back whenever a session with that key is
/// still installed; failing that, LightDM's default session when one with
/// that key is installed; failing that, the head of the list.
pub proof fn lemma_remembered_session_comes_back(
    account: Account,
    sessions: Seq<Session>,
    default_session: Seq<char>,
    i: int,
)
    requires
        0 <= i < sessions.len(),
    ensures
        sessions[i].key@ == account.user.session@ ==> preferred_session(
            Some(account),
            sessions,
            default_session,
        ) == Some(account.user.session@),
        sessions[i].key@ == default_session && (forall|j: int|
            0 <= j < sessions.len() ==> #[trigger] sessions[j].key@ != account.user.session@)
            ==> preferred_session(Some(account), sessions, default_session) == Some(default_session),
        (forall|j: int|
            0 <= j < sessions.len() ==> #[trigger] sessions[j].key@ != account.user.session@
                && sessions[j].key@ != default_session) ==> preferred_session(
            Some(account),
            sessions,
            default_session,
        ) == Some(sessions[0].key@),
{
}

/// LightDM's memory of who logged in last wins whenever that account is
/// listed and the seat neither hides its accounts nor selects the guest
/// session; a seat that hides its accounts always starts on the typed name.
pub proof fn lemma_last_login_is_preselected(h: Hints, accounts: Seq<Account>, i: int)
    requires
        0 <= i < accounts.len(),
    ensures
        h.hide_users ==> spec_preselect(h, accounts) == other(),
        !h.hide_users && !(h.select_guest && h.has_guest_account) && accounts[i].user.name@
            == h.select_user@ ==> spec_preselect(h, accounts) == h.select_user@,
    decreases i,
{
    if !h.hide_users && !(h.select_guest && h.has_guest_account) && accounts[i].user.name@
        == h.select_user@ {
        lemma_listed_account_is_found(accounts, h.select_user@, i);
    }
}

proof fn lemma_listed_account_is_found(accounts: Seq<Account>, name: Seq<char>, i: int)
    requires
        0 <= i < accounts.len(),
        accounts[i].user.name@ == name,
    ensures
        find_account(accounts, name) matches Some(a) && a.user.name@ == name,
    decreases i,
{
    if i > 0 && accounts[0].user.name@ != name {
        lemma_listed_account_is_found(accounts.drop_first(), name, i - 1);
    }
}

/// The account's remembered keyboard layout and language come back with it
/// when it has them.
pub proof fn lemma_remembered_layout_and_language(a: Account)
    ensures
        a.user.layout@.len() > 0 ==> remembered(Some(a), |x: Account| x.user.layout@) == Some(
            a.user.layout@,
        ),
        a.user.language@.len() > 0 ==> remembered(Some(a), |x: Account| x.user.language@)
            == Some(a.user.language@),
{
}

} // verus!
