//! Desktop sessions read from `.desktop` files, and the environment a desktop
//! is started with.
use vstd::prelude::*;

use crate::auth::Passwd;
use crate::order::{lex_le, sort_by_key, sorted_by_key, stable_sort_of, SortKey};
use crate::text::{
    chars_eq, chars_of, copy_range, extension, file_stem, lines, lines_chars, owned, starts_with,
    starts_with_chars, string_of, trim, trim_chars,
};

verus! {

/// A desktop session installed on this machine.
#[derive(Debug)]
pub struct Session {
    /// `.desktop` file stem, e.g. "plasma" -- what `DESKTOP_SESSION` expects.
    pub id: String,
    pub name: String,
    /// The `Exec=` line, field codes dropped.
    pub command: String,
    /// `DesktopNames=`, e.g. "KDE". Empty when the file omits it.
    pub desktop_names: String,
    pub wayland: bool,
}

/// `XDG_SESSION_TYPE` for a session.
pub open spec fn spec_session_type(wayland: bool) -> Seq<char> {
    if wayland {
        "wayland"@
    } else {
        "x11"@
    }
}

/// The `PATH` a desktop starts with.
pub open spec fn session_path() -> Seq<char> {
    "/usr/local/sbin:/usr/local/bin:/usr/bin"@
}

/// The environment a desktop is started with, before PAM adds its own: the
/// account's home, name and shell, a fixed `PATH`, the session's type and id,
/// and `XDG_CURRENT_DESKTOP` only when the session names its desktops.
pub open spec fn session_env(s: Session, u: Passwd) -> Seq<(Seq<char>, Seq<char>)> {
    let base = seq![
        ("HOME"@, u.home@),
        ("PWD"@, u.home@),
        ("USER"@, u.name@),
        ("LOGNAME"@, u.name@),
        ("SHELL"@, u.shell@),
        ("PATH"@, session_path()),
        ("XDG_SESSION_TYPE"@, spec_session_type(s.wayland)),
        ("XDG_SESSION_DESKTOP"@, s.id@),
        ("DESKTOP_SESSION"@, s.id@),
    ];
    if s.desktop_names@.len() == 0 {
        base
    } else {
        base.push(("XDG_CURRENT_DESKTOP"@, s.desktop_names@))
    }
}

/// A list of variables as text.
pub open spec fn pairs_view(v: Seq<(String, String)>) -> Seq<(Seq<char>, Seq<char>)> {
    v.map_values(|p: (String, String)| (p.0@, p.1@))
}

fn pair(key: &str, value: &String) -> (r: (String, String))
    ensures
        r.0@ == key@,
        r.1@ == value@,
{
    (owned(key), value.clone())
}

impl Session {
    pub fn session_type(&self) -> (t: &'static str)
        ensures
            t@ == spec_session_type(self.wayland),
    {
        if self.wayland {
            "wayland"
        } else {
            "x11"
        }
    }

    /// Environment for the desktop process. PAM contributes the rest
    /// (`XDG_RUNTIME_DIR`, `XDG_SESSION_ID`) and overrides what it owns.
    pub fn env(&self, user: &Passwd) -> (out: Vec<(String, String)>)
        ensures
            pairs_view(out@) == session_env(*self, *user),
    {
        let mut env: Vec<(String, String)> = Vec::new();
        env.push(pair("HOME", &user.home));
        env.push(pair("PWD", &user.home));
        env.push(pair("USER", &user.name));
        env.push(pair("LOGNAME", &user.name));
        env.push(pair("SHELL", &user.shell));
        env.push((owned("PATH"), owned("/usr/local/sbin:/usr/local/bin:/usr/bin")));
        env.push((owned("XDG_SESSION_TYPE"), owned(self.session_type())));
        env.push(pair("XDG_SESSION_DESKTOP", &self.id));
        env.push(pair("DESKTOP_SESSION", &self.id));
        let ghost base = pairs_view(env@);
        assert(base =~= session_env(*self, *user).take(9));
        if !self.desktop_names.as_str().is_empty() {
            env.push(pair("XDG_CURRENT_DESKTOP", &self.desktop_names));
            assert(pairs_view(env@) =~= base.push(("XDG_CURRENT_DESKTOP"@, self.desktop_names@)));
        }
        proof {
            if self.desktop_names@.len() == 0 {
                assert(session_env(*self, *user).take(9) =~= session_env(*self, *user));
            } else {
                assert(session_env(*self, *user).take(9).push(
                    ("XDG_CURRENT_DESKTOP"@, self.desktop_names@),
                ) =~= session_env(*self, *user));
            }
        }
        env
    }
}

impl SortKey for Session {
    /// Sorted as the pair (X11?, name): a leading `0` for Wayland and `1` for
    /// X11 puts every Wayland session first, then orders by name.
    open spec fn sort_key(&self) -> Seq<char> {
        seq![kind_mark(self.wayland)] + self.name@
    }

    fn key_chars(&self) -> (k: Vec<char>) {
        kind_key(self.wayland, &self.name)
    }
}

/// `0` before `1`: Wayland before X11.
pub open spec fn kind_mark(wayland: bool) -> char {
    if wayland {
        '0'
    } else {
        '1'
    }
}

/// The key `(X11?, name)` as one text: the kind mark, then the name.
pub fn kind_key(wayland: bool, name: &String) -> (k: Vec<char>)
    ensures
        k@ == seq![kind_mark(wayland)] + name@,
{
    let mut k: Vec<char> = Vec::new();
    k.push(if wayland {
        '0'
    } else {
        '1'
    });
    let chars = chars_of(name.as_str());
    let mut i: usize = 0;
    while i < chars.len()
        invariant
            i <= chars.len(),
            chars@ == name@,
            k@ == seq![kind_mark(wayland)] + chars@.take(i as int),
        decreases chars.len() - i,
    {
        k.push(chars[i]);
        i += 1;
        assert(k@ =~= seq![kind_mark(wayland)] + chars@.take(i as int));
    }
    assert(chars@.take(chars.len() as int) =~= chars@);
    k
}

/// A session list sorted by (X11?, name) puts Wayland sessions first, and the
/// sessions of one kind in name order.
pub proof fn lemma_kind_then_name(wayland_a: bool, name_a: Seq<char>, wayland_b: bool, name_b: Seq<char>)
    requires
        lex_le(seq![kind_mark(wayland_a)] + name_a, seq![kind_mark(wayland_b)] + name_b),
    ensures
        wayland_b ==> wayland_a,
        wayland_a == wayland_b ==> lex_le(name_a, name_b),
{
    let ka = seq![kind_mark(wayland_a)] + name_a;
    let kb = seq![kind_mark(wayland_b)] + name_b;
    assert(ka[0] == kind_mark(wayland_a));
    assert(kb[0] == kind_mark(wayland_b));
    assert(ka.drop_first() =~= name_a);
    assert(kb.drop_first() =~= name_b);
}

/// Sessions in the order `sessions` gives them: every Wayland session before
/// every X11 one, and alphabetical within each kind.
pub proof fn lemma_sessions_wayland_first(s: Seq<Session>, i: int, j: int)
    requires
        sorted_by_key(s),
        0 <= i < j < s.len(),
    ensures
        s[j].wayland ==> s[i].wayland,
        s[i].wayland == s[j].wayland ==> lex_le(s[i].name@, s[j].name@),
{
    assert(lex_le(s[i].sort_key(), s[j].sort_key()));
    lemma_kind_then_name(s[i].wayland, s[i].name@, s[j].wayland, s[j].name@);
}

/// Desktop sessions installed on this machine, Wayland first then X11,
/// alphabetical within each, given the sessions read from the Wayland and the
/// X11 session directories. An empty list is a normal result, not an error.
pub fn sessions(wayland: Vec<Session>, x11: Vec<Session>) -> (out: Vec<Session>)
    ensures
        stable_sort_of(out@, wayland@ + x11@),
{
    let mut all = wayland;
    let mut rest = x11;
    all.append(&mut rest);
    sort_by_key(all)
}

/// The first line of `ls` that starts with `key`, with the key taken off; empty
/// when there is none.
pub open spec fn first_value(ls: Seq<Seq<char>>, key: Seq<char>) -> Seq<char>
    decreases ls.len(),
{
    if ls.len() == 0 {
        Seq::empty()
    } else if starts_with(ls[0], key) {
        ls[0].skip(key.len() as int)
    } else {
        first_value(ls.drop_first(), key)
    }
}

/// The value of `key` (written with its `=`) in a `.desktop` file: from the
/// first line that starts with it, trimmed; empty when no line does.
pub open spec fn desktop_value(content: Seq<char>, key: Seq<char>) -> Seq<char> {
    trim(first_value(lines(content), key))
}

/// A `.desktop` file offers a session unless it is `Hidden=true` or
/// `NoDisplay=true`, or lacks a `Name=` or an `Exec=` (after field codes are
/// dropped).
pub open spec fn desktop_entry_offered(content: Seq<char>) -> bool {
    &&& desktop_value(content, "Hidden="@) != "true"@
    &&& desktop_value(content, "NoDisplay="@) != "true"@
    &&& desktop_value(content, "Name="@).len() > 0
    &&& spec_strip_field_codes(desktop_value(content, "Exec="@)).len() > 0
}

fn desktop_value_chars(ls: &Vec<Vec<char>>, key: &str) -> (v: Vec<char>)
    ensures
        v@ == trim(first_value(ls@.map_values(|l: Vec<char>| l@), key@)),
{
    let ghost views = ls@.map_values(|l: Vec<char>| l@);
    let key_chars = chars_of(key);
    let mut i: usize = 0;
    assert(views.skip(0) =~= views);
    while i < ls.len()
        invariant
            i <= ls.len(),
            views == ls@.map_values(|l: Vec<char>| l@),
            key_chars@ == key@,
            first_value(views, key@) == first_value(views.skip(i as int), key@),
        decreases ls.len() - i,
    {
        assert(views.skip(i as int)[0] == ls@[i as int]@);
        if starts_with_chars(&ls[i], &key_chars) {
            let rest = copy_range(&ls[i], key_chars.len(), ls[i].len());
            assert(rest@ =~= ls@[i as int]@.skip(key@.len() as int));
            return trim_chars(&rest);
        }
        assert(views.skip(i as int).drop_first() =~= views.skip(i + 1));
        i += 1;
    }
    let empty: Vec<char> = Vec::new();
    assert(trim(Seq::<char>::empty()) =~= Seq::<char>::empty());
    empty
}

/// The session a `.desktop` file offers, given its file stem and contents, or
/// nothing if it offers none (see `desktop_entry_offered`).
pub fn parse_desktop_file(stem: &str, content: &str, wayland: bool) -> (r: Option<Session>)
    ensures
        r is Some <==> desktop_entry_offered(content@),
        r matches Some(s) ==> {
            &&& s.id@ == stem@
            &&& s.name@ == desktop_value(content@, "Name="@)
            &&& s.command@ == spec_strip_field_codes(desktop_value(content@, "Exec="@))
            &&& s.desktop_names@ == desktop_value(content@, "DesktopNames="@)
            &&& s.wayland == wayland
        },
{
    let text = chars_of(content);
    let ls = lines_chars(&text);
    let hidden = desktop_value_chars(&ls, "Hidden=");
    let no_display = desktop_value_chars(&ls, "NoDisplay=");
    let truth = chars_of("true");
    if chars_eq(&hidden, &truth) || chars_eq(&no_display, &truth) {
        return None;
    }
    let name = desktop_value_chars(&ls, "Name=");
    let exec_value = desktop_value_chars(&ls, "Exec=");
    let exec = strip_field_codes_chars(&exec_value);
    if name.len() == 0 || exec.len() == 0 {
        return None;
    }
    let desktop_names = desktop_value_chars(&ls, "DesktopNames=");
    Some(
        Session {
            id: owned(stem),
            name: string_of(&name),
            command: string_of(&exec),
            desktop_names: string_of(&desktop_names),
            wayland,
        },
    )
}

/// Whether a directory entry is a `.desktop` file, by its extension.
pub fn is_desktop_file(file_name: &str) -> (r: bool)
    ensures
        r == (extension(file_name@) == Some("desktop"@)),
{
    let name = chars_of(file_name);
    match crate::text::extension_chars(&name) {
        None => false,
        Some(e) => {
            let wanted = chars_of("desktop");
            chars_eq(&e, &wanted)
        },
    }
}

/// The session id a `.desktop` file gives: its file stem.
pub fn desktop_file_id(file_name: &str) -> (r: String)
    ensures
        r@ == file_stem(file_name@),
{
    let name = chars_of(file_name);
    let stem = crate::text::file_stem_chars(&name);
    string_of(&stem)
}

/// `Exec=` with its field codes dropped: a `%` and the character after it go,
/// except that `%%` is a literal percent. What is left is not yet trimmed.
pub open spec fn without_field_codes(s: Seq<char>) -> Seq<char>
    decreases s.len(),
{
    if s.len() == 0 {
        s
    } else if s[0] == '%' {
        if s.len() >= 2 && s[1] == '%' {
            seq!['%'] + without_field_codes(s.skip(2))
        } else if s.len() >= 2 {
            without_field_codes(s.skip(2))
        } else {
            Seq::empty()
        }
    } else {
        seq![s[0]] + without_field_codes(s.drop_first())
    }
}

/// `Exec=` without field codes, trimmed.
pub open spec fn spec_strip_field_codes(s: Seq<char>) -> Seq<char> {
    trim(without_field_codes(s))
}

fn strip_field_codes_chars(exec: &Vec<char>) -> (out: Vec<char>)
    ensures
        out@ == spec_strip_field_codes(exec@),
{
    let mut out: Vec<char> = Vec::new();
    let mut i: usize = 0;
    assert(exec@.skip(0) =~= exec@);
    while i < exec.len()
        invariant
            i <= exec.len(),
            without_field_codes(exec@) == out@ + without_field_codes(exec@.skip(i as int)),
        decreases exec.len() - i,
    {
        let ghost rest = exec@.skip(i as int);
        let c = exec[i];
        if c == '%' {
            if i + 1 < exec.len() && exec[i + 1] == '%' {
                out.push('%');
            }
            if i + 1 < exec.len() {
                assert(rest.skip(2) =~= exec@.skip(i + 2));
                i += 2;
            } else {
                assert(without_field_codes(rest) =~= Seq::<char>::empty());
                i += 1;
                assert(exec@.skip(i as int) =~= Seq::<char>::empty());
            }
            assert(without_field_codes(exec@) =~= out@ + without_field_codes(exec@.skip(i as int)));
        } else {
            out.push(c);
            assert(rest.drop_first() =~= exec@.skip(i + 1));
            i += 1;
            assert(without_field_codes(exec@) =~= out@ + without_field_codes(exec@.skip(i as int)));
        }
    }
    assert(exec@.skip(exec.len() as int) =~= Seq::<char>::empty());
    assert(out@ + Seq::<char>::empty() =~= out@);
    trim_chars(&out)
}

/// `Exec=` may carry `%f`/`%U` style field codes for a file the launcher passes
/// in. A session gets no arguments, so drop them; `%%` is a literal percent.
pub fn strip_field_codes(exec: &str) -> (out: String)
    ensures
        out@ == spec_strip_field_codes(exec@),
{
    let chars = chars_of(exec);
    let stripped = strip_field_codes_chars(&chars);
    string_of(&stripped)
}

/// The desktop's `XDG_SESSION_DESKTOP` and `DESKTOP_SESSION` both hold the
/// session's id (its `.desktop` stem), and no other value is given under
/// either key; `XDG_SESSION_TYPE` is `wayland` or `x11` by the session's kind.
pub proof fn lemma_session_env_names_the_session_id(s: Session, u: Passwd)
    ensures
        session_env(s, u).contains(("XDG_SESSION_DESKTOP"@, s.id@)),
        session_env(s, u).contains(("DESKTOP_SESSION"@, s.id@)),
        forall|i: int|
            0 <= i < session_env(s, u).len() && (#[trigger] session_env(s, u)[i]).0
                == "XDG_SESSION_DESKTOP"@ ==> session_env(s, u)[i].1 == s.id@,
        forall|i: int|
            0 <= i < session_env(s, u).len() && (#[trigger] session_env(s, u)[i]).0
                == "DESKTOP_SESSION"@ ==> session_env(s, u)[i].1 == s.id@,
        session_env(s, u).contains(
            ("XDG_SESSION_TYPE"@, if s.wayland { "wayland"@ } else { "x11"@ }),
        ),
{
    reveal_strlit("HOME");
    reveal_strlit("PWD");
    reveal_strlit("USER");
    reveal_strlit("LOGNAME");
    reveal_strlit("SHELL");
    reveal_strlit("PATH");
    reveal_strlit("XDG_SESSION_TYPE");
    reveal_strlit("XDG_SESSION_DESKTOP");
    reveal_strlit("DESKTOP_SESSION");
    reveal_strlit("XDG_CURRENT_DESKTOP");
    let env = session_env(s, u);
    assert(env[7] == ("XDG_SESSION_DESKTOP"@, s.id@));
    assert(env[8] == ("DESKTOP_SESSION"@, s.id@));
    assert(env[6] == ("XDG_SESSION_TYPE"@, spec_session_type(s.wayland)));
    assert forall|i: int|
        0 <= i < env.len() && (#[trigger] env[i]).0 == "XDG_SESSION_DESKTOP"@ implies env[i].1
        == s.id@ by {
        if i != 7 {
            assert(env[i].0[4] != "XDG_SESSION_DESKTOP"@[4] || env[i].0.len() != 19);
        }
    }
    assert forall|i: int|
        0 <= i < env.len() && (#[trigger] env[i]).0 == "DESKTOP_SESSION"@ implies env[i].1
        == s.id@ by {
        if i != 8 {
            assert(env[i].0.len() != 15 || env[i].0[0] != 'D');
        }
    }
}

} // verus!
