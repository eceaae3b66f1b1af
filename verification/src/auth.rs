//! Who may log in: the accounts offered from `/etc/passwd`, the account rule
//! applied again to whatever the greeter sends, and what PAM and the desktop
//! process are handed for a login.
use vstd::prelude::*;

use crate::order::{sort_by_key, stable_sort_of, SortKey};
use crate::session::{pairs_view, session_env, spec_session_type, Session};
use crate::text::{
    chars_of, ends_with, ends_with_chars, lines, lines_chars, owned, parse_u32, parse_u32_chars,
    push_decimal, decimal, split, split_chars, string_of, trim, trim_chars,
};

verus! {

/// An account offered on the login screen.
#[derive(Debug)]
pub struct User {
    pub name: String,
    /// GECOS full name, falling back to the account name.
    pub display_name: String,
}

impl View for User {
    type V = (Seq<char>, Seq<char>);

    open spec fn view(&self) -> (Seq<char>, Seq<char>) {
        (self.name@, self.display_name@)
    }
}

impl SortKey for User {
    open spec fn sort_key(&self) -> Seq<char> {
        self.name@
    }

    fn key_chars(&self) -> (k: Vec<char>) {
        chars_of(self.name.as_str())
    }
}

/// The parts of a passwd entry a session launch needs.
#[derive(Debug)]
pub struct Passwd {
    pub name: String,
    pub uid: u32,
    pub gid: u32,
    pub home: String,
    pub shell: String,
}

/// The login rule: a regular uid, 1000 up to but not including 65534, and a
/// shell that is neither a `nologin` nor `/false`.
pub open spec fn login_account(uid: u32, shell: Seq<char>) -> bool {
    &&& 1000 <= uid < 65534
    &&& !ends_with(shell, "nologin"@)
    &&& !ends_with(shell, "/false"@)
}

fn shell_allows_login(shell: &Vec<char>) -> (r: bool)
    ensures
        r == (!ends_with(shell@, "nologin"@) && !ends_with(shell@, "/false"@)),
{
    let nologin = chars_of("nologin");
    let fals = chars_of("/false");
    !ends_with_chars(shell, &nologin) && !ends_with_chars(shell, &fals)
}

/// The rule the greeter's user list uses, applied to a resolved account: a
/// regular uid and a real shell. Root and service accounts cannot log in.
pub fn is_login_account(user: &Passwd) -> (r: bool)
    ensures
        r == login_account(user.uid, user.shell@),
{
    let shell = chars_of(user.shell.as_str());
    1000 <= user.uid && user.uid < 65534 && shell_allows_login(&shell)
}

/// One `/etc/passwd` line as an offered account, if it is one: the line needs
/// seven `:`-separated fields, a uid (field 3) that parses and a uid and shell
/// (field 7) that pass `login_account`. The display name is the GECOS field's
/// (field 5) part before the first `,`, trimmed, or the account name (field 1)
/// when that is empty.
pub open spec fn spec_parse_login_user(line: Seq<char>) -> Option<(Seq<char>, Seq<char>)> {
    let fields = split(line, ':');
    if fields.len() < 7 {
        None
    } else {
        match parse_u32(fields[2]) {
            None => None,
            Some(uid) => if !login_account(uid, fields[6]) {
                None
            } else {
                let full_name = trim(split(fields[4], ',')[0]);
                Some(
                    (
                        fields[0],
                        if full_name.len() == 0 {
                            fields[0]
                        } else {
                            full_name
                        },
                    ),
                )
            },
        }
    }
}

/// Parses one /etc/passwd line, keeping only accounts a person can log into:
/// a regular uid and a real shell. Root and service accounts are not offered.
pub fn parse_login_user(line: &str) -> (r: Option<User>)
    ensures
        r is Some <==> spec_parse_login_user(line@) is Some,
        r matches Some(u) ==> spec_parse_login_user(line@) == Some(u@),
{
    let chars = chars_of(line);
    parse_login_user_chars(&chars)
}

fn parse_login_user_chars(line: &Vec<char>) -> (r: Option<User>)
    ensures
        r is Some <==> spec_parse_login_user(line@) is Some,
        r matches Some(u) ==> spec_parse_login_user(line@) == Some(u@),
{
    let fields = split_chars(line, ':');
    let ghost views = fields@.map_values(|f: Vec<char>| f@);
    assert(views == split(line@, ':'));
    if fields.len() < 7 {
        return None;
    }
    assert(views[2] == fields@[2]@ && views[4] == fields@[4]@ && views[6] == fields@[6]@
        && views[0] == fields@[0]@);
    let uid = match parse_u32_chars(&fields[2]) {
        None => {
            return None;
        },
        Some(uid) => uid,
    };
    if !(1000 <= uid && uid < 65534 && shell_allows_login(&fields[6])) {
        return None;
    }
    let gecos_parts = split_chars(&fields[4], ',');
    proof {
        crate::text::lemma_split_len(fields@[4]@, ',');
        assert(gecos_parts@.map_values(|f: Vec<char>| f@)[0] == gecos_parts@[0]@);
    }
    let full_name = trim_chars(&gecos_parts[0]);
    let name = string_of(&fields[0]);
    let display_name = if full_name.len() == 0 {
        string_of(&fields[0])
    } else {
        string_of(&full_name)
    };
    Some(User { name, display_name })
}

/// The accounts offered from `/etc/passwd`, in the order its lines give them.
pub open spec fn spec_login_users(passwd: Seq<char>) -> Seq<(Seq<char>, Seq<char>)> {
    lines(passwd).filter_map(|line: Seq<char>| spec_parse_login_user(line))
}

/// Human login accounts from the text of `/etc/passwd`, sorted by name (a
/// stable sort, so two entries for one name keep their file order).
pub fn users(passwd: &str) -> (out: Vec<User>)
    ensures
        exists|found: Seq<User>|
            found.map_values(|u: User| u@) == spec_login_users(passwd@) && stable_sort_of(
                out@,
                found,
            ),
{
    let text = chars_of(passwd);
    let ls = lines_chars(&text);
    let ghost views = ls@.map_values(|l: Vec<char>| l@);
    let mut found: Vec<User> = Vec::new();
    let mut i: usize = 0;
    while i < ls.len()
        invariant
            i <= ls.len(),
            views == ls@.map_values(|l: Vec<char>| l@),
            views == lines(passwd@),
            found@.map_values(|u: User| u@) == views.take(i as int).filter_map(
                |line: Seq<char>| spec_parse_login_user(line),
            ),
        decreases ls.len() - i,
    {
        let ghost before = found@.map_values(|u: User| u@);
        let parsed = parse_login_user_chars(&ls[i]);
        proof {
            assert(views.take(i + 1).drop_last() =~= views.take(i as int));
            assert(views.take(i + 1).last() == ls@[i as int]@);
            reveal_with_fuel(Seq::filter_map, 1);
        }
        match parsed {
            Some(u) => {
                found.push(u);
                assert(found@.map_values(|u: User| u@) =~= before.push(u@));
            },
            None => {},
        }
        i += 1;
    }
    assert(views.take(ls.len() as int) =~= views);
    let sorted = sort_by_key(found);
    sorted
}

/// Why an account resolved for a login attempt may not log in, checked before
/// PAM is consulted: it does not exist, or it fails the login rule.
pub open spec fn refusal(account: Option<Passwd>) -> Option<Seq<char>> {
    match account {
        None => Some("no such account"@),
        Some(user) => if login_account(user.uid, user.shell@) {
            None
        } else {
            Some("uid "@ + decimal(user.uid as nat) + " is not a login account"@)
        },
    }
}

/// Checked before PAM, not after: the greeter only ever offers these accounts,
/// but it is not what decides, so a greeter that has been tampered with still
/// cannot ask for root -- and a rejected root attempt never reaches PAM.
pub fn check_account(account: Option<Passwd>) -> (r: Result<Passwd, String>)
    ensures
        match refusal(account) {
            None => r == Ok::<Passwd, String>(account.unwrap()),
            Some(message) => r matches Err(e) && e@ == message,
        },
{
    match account {
        None => Err(owned("no such account")),
        Some(user) => {
            if is_login_account(&user) {
                Ok(user)
            } else {
                let mut message = owned("uid ");
                push_decimal(&mut message, user.uid);
                message.append(" is not a login account");
                Err(message)
            }
        },
    }
}

/// What a login hands PAM before authenticating: the tty, and the variables
/// pam_systemd reads when it registers the logind session.
pub struct PamSettings {
    pub tty: String,
    pub environment: Vec<String>,
}

/// The seat, `seat0` unless `XDG_SEAT` says otherwise.
pub open spec fn seat_or_default(seat: Option<String>) -> Seq<char> {
    match seat {
        Some(s) => s@,
        None => "seat0"@,
    }
}

/// The VT number, `1` unless `XDG_VTNR` says otherwise.
pub open spec fn vtnr_or_default(vtnr: Option<String>) -> Seq<char> {
    match vtnr {
        Some(v) => v@,
        None => "1"@,
    }
}

/// The PAM environment for a login into `session`.
pub open spec fn pam_environment(seat: Seq<char>, vtnr: Seq<char>, session: Session) -> Seq<
    Seq<char>,
> {
    seq![
        "XDG_SEAT="@ + seat,
        "XDG_VTNR="@ + vtnr,
        "XDG_SESSION_CLASS=user"@,
        "XDG_SESSION_TYPE="@ + spec_session_type(session.wayland),
        "XDG_SESSION_DESKTOP="@ + session.id@,
    ]
}

fn joined(prefix: &str, value: &str) -> (r: String)
    ensures
        r@ == prefix@ + value@,
{
    let mut r = owned(prefix);
    r.append(value);
    r
}

/// The tty and PAM environment for a login into `session`, given `XDG_SEAT`
/// and `XDG_VTNR` when they are set.
pub fn pam_settings(seat: Option<String>, vtnr: Option<String>, session: &Session) -> (r:
    PamSettings)
    ensures
        r.tty@ == "/dev/tty"@ + vtnr_or_default(vtnr),
        r.environment@.map_values(|v: String| v@) == pam_environment(
            seat_or_default(seat),
            vtnr_or_default(vtnr),
            *session,
        ),
{
    let seat = match seat {
        Some(s) => s,
        None => owned("seat0"),
    };
    let vtnr = match vtnr {
        Some(v) => v,
        None => owned("1"),
    };
    let tty = joined("/dev/tty", vtnr.as_str());
    let mut environment: Vec<String> = Vec::new();
    environment.push(joined("XDG_SEAT=", seat.as_str()));
    environment.push(joined("XDG_VTNR=", vtnr.as_str()));
    environment.push(owned("XDG_SESSION_CLASS=user"));
    environment.push(joined("XDG_SESSION_TYPE=", session.session_type()));
    environment.push(joined("XDG_SESSION_DESKTOP=", session.id.as_str()));
    let r = PamSettings { tty, environment };
    assert(r.environment@.map_values(|v: String| v@) =~= pam_environment(
        seat@,
        vtnr@,
        *session,
    ));
    r
}

/// The environment the desktop runs with: the session's own variables, then
/// PAM's, appended last so that pam_systemd's `XDG_RUNTIME_DIR` and
/// `XDG_SESSION_ID` win.
pub fn session_environment(session: &Session, user: &Passwd, pam: Vec<(String, String)>) -> (r:
    Vec<(String, String)>)
    ensures
        pairs_view(r@) == session_env(*session, *user) + pairs_view(pam@),
{
    let mut environment = session.env(user);
    let ghost first = environment@;
    let mut rest = pam;
    let ghost second = rest@;
    environment.append(&mut rest);
    assert(pairs_view(environment@) =~= pairs_view(first) + pairs_view(second));
    environment
}

/// The shell a desktop is started through: the account's own, or `/bin/sh`
/// when it has none.
pub open spec fn spec_login_shell(user: Passwd) -> Seq<char> {
    if user.shell@.len() == 0 {
        "/bin/sh"@
    } else {
        user.shell@
    }
}

/// How the desktop is started: the account's shell as a login shell running
/// the session's `Exec=` line, so `/etc/profile` and the user's own dotfiles
/// are sourced.
pub struct Launch {
    pub program: String,
    pub args: Vec<String>,
}

pub fn launch(user: &Passwd, exec: &str) -> (r: Launch)
    ensures
        r.program@ == spec_login_shell(*user),
        r.args@.map_values(|a: String| a@) == seq!["-l"@, "-c"@, exec@],
{
    let program = if user.shell.as_str().is_empty() {
        owned("/bin/sh")
    } else {
        user.shell.clone()
    };
    let mut args: Vec<String> = Vec::new();
    args.push(owned("-l"));
    args.push(owned("-c"));
    args.push(owned(exec));
    let r = Launch { program, args };
    assert(r.args@.map_values(|a: String| a@) =~= seq!["-l"@, "-c"@, exec@]);
    r
}

/// The accounts the login screen offers are exactly those that pass the rule
/// applied again when a login is attempted: an offered line's uid and shell
/// pass `login_account`, and a line whose uid and shell pass it (with seven
/// fields and a uid that parses) is offered.
pub proof fn lemma_offered_iff_login_rule(line: Seq<char>)
    ensures
        ({
            let fields = split(line, ':');
            spec_parse_login_user(line) is Some <==> fields.len() >= 7 && parse_u32(fields[2]) is Some
                && login_account(parse_u32(fields[2]).unwrap(), fields[6])
        }),
{
}

/// The display name of an offered account is the trimmed part of its GECOS
/// field before the first comma, or the account name when that part is empty
/// (as with the `,,,` adduser writes when no full name is given); so an
/// account with a name is never drawn with a blank label.
pub proof fn lemma_display_name_falls_back_to_the_account(line: Seq<char>)
    ensures
        spec_parse_login_user(line) matches Some((name, display)) ==> {
            let fields = split(line, ':');
            let full_name = trim(split(fields[4], ',')[0]);
            &&& name == fields[0]
            &&& full_name.len() == 0 ==> display == name
            &&& full_name.len() > 0 ==> display == full_name
            &&& name.len() > 0 ==> display.len() > 0
        },
{
}

} // verus!
