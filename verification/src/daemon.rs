//! The decisions of the long-lived daemon half: what a login request is
//! answered, what reaches the journal of a username, the X authority file, and
//! how the greeter's X server is started.
use vstd::prelude::*;

use crate::session::Session;
use crate::text::{chars_of, decimal, owned, push_decimal, str_eq, string_of};

verus! {

/// What the greeter sends: deliberately not `Debug` and not `Clone`, so that no
/// second copy of the password and no trace line of it can exist.
pub struct Request {
    pub username: String,
    pub password: String,
    pub session: String,
}

/// The daemon's reply: no error for a login that succeeded.
pub struct Response {
    pub error: Option<String>,
}

/// The only thing a failed login is ever told.
pub open spec fn denied() -> Seq<char> {
    "Incorrect password."@
}

/// The reply to one login attempt. Which of "no such account", "wrong
/// password", "account expired" or "not a login account" it was stays in the
/// journal: every failure gets the same words, whatever its detail.
pub fn response<T>(login: &Result<T, String>) -> (r: Response)
    ensures
        r.error is Some <==> login is Err,
        r.error matches Some(e) ==> e@ == denied(),
{
    match login {
        Ok(_) => Response { error: None },
        Err(_) => Response { error: Some(owned("Incorrect password.")) },
    }
}

/// A session is started only for a login that succeeded and whose reply
/// reached the greeter: never one the greeter thinks failed.
pub fn starts_session(login_succeeded: bool, reply_sent: bool) -> (r: bool)
    ensures
        r == (login_succeeded && reply_sent),
{
    login_succeeded && reply_sent
}

/// The characters a username keeps on its way to the journal: ASCII letters
/// and digits, and `.`, `_`, `-`, `@`.
pub open spec fn journal_allowed(c: char) -> bool {
    ||| ('a' <= c && c <= 'z')
    ||| ('A' <= c && c <= 'Z')
    ||| ('0' <= c && c <= '9')
    ||| c == '.'
    ||| c == '_'
    ||| c == '-'
    ||| c == '@'
}

/// At most this many characters of a username reach the journal.
pub open spec fn journal_max() -> nat {
    32
}

/// A username as the journal may record it: the allowed characters, in order,
/// cut to the first 32.
pub open spec fn spec_journal_safe(value: Seq<char>) -> Seq<char> {
    let kept = value.filter(|c: char| journal_allowed(c));
    if kept.len() <= journal_max() {
        kept
    } else {
        kept.take(journal_max() as int)
    }
}

fn allowed(c: char) -> (r: bool)
    ensures
        r == journal_allowed(c),
{
    ('a' <= c && c <= 'z') || ('A' <= c && c <= 'Z') || ('0' <= c && c <= '9') || c == '.' || c
        == '_' || c == '-' || c == '@'
}

/// Usernames arrive from the greeter, so they are never written to the journal
/// as they came: control characters there are a log-forging tool.
pub fn journal_safe(value: &str) -> (r: String)
    ensures
        r@ == spec_journal_safe(value@),
        r@.len() <= journal_max(),
        forall|i: int| 0 <= i < r@.len() ==> journal_allowed(#[trigger] r@[i]),
{
    let chars = chars_of(value);
    let ghost pred = |c: char| journal_allowed(c);
    let mut kept: Vec<char> = Vec::new();
    let mut i: usize = 0;
    while i < chars.len() && kept.len() < 32
        invariant
            i <= chars.len(),
            chars@ == value@,
            pred == (|c: char| journal_allowed(c)),
            kept@ == chars@.take(i as int).filter(pred),
            kept@.len() <= 32,
        decreases chars.len() - i,
    {
        proof {
            reveal_with_fuel(Seq::filter, 1);
            assert(chars@.take(i + 1).drop_last() =~= chars@.take(i as int));
        }
        if allowed(chars[i]) {
            kept.push(chars[i]);
        }
        i += 1;
    }
    proof {
        broadcast use vstd::seq_lib::group_filter_ensures;

        assert(chars@ =~= chars@.take(i as int) + chars@.skip(i as int));
        Seq::filter_distributes_over_add(chars@.take(i as int), chars@.skip(i as int), pred);
        let all = chars@.filter(pred);
        if i < chars.len() {
            assert(kept@.len() == 32);
            assert(all.take(32) =~= kept@);
        } else {
            assert(chars@.take(i as int) =~= chars@);
        }
        assert forall|k: int| 0 <= k < kept@.len() implies journal_allowed(#[trigger] kept@[k]) by {
            chars@.take(i as int).lemma_filter_pred(pred, k);
        }
    }
    string_of(&kept)
}

/// A length as the two bytes of a big-endian `u16`, truncated as `as u16` does.
pub open spec fn be16(len: nat) -> Seq<u8> {
    seq![((len % 65536) / 256) as u8, (len % 256) as u8]
}

/// `MIT-MAGIC-COOKIE-1`, the auth name.
pub open spec fn cookie_auth_name() -> Seq<u8> {
    seq![77, 73, 84, 45, 77, 65, 71, 73, 67, 45, 67, 79, 79, 75, 73, 69, 45, 49]
}

/// One Xauthority record: family, then address, display number, auth name and
/// auth data, each a big-endian u16 length followed by that many bytes.
/// `FamilyWild` (0xFFFF) with an empty address and number matches every
/// connection, which is what libXau and the server both want here -- the
/// cookie is the secret, and the file is readable only by root.
pub open spec fn spec_authority_record(cookie: Seq<u8>) -> Seq<u8> {
    seq![0xFFu8, 0xFFu8] + be16(0) + be16(0) + be16(18) + cookie_auth_name() + be16(cookie.len())
        + cookie
}

fn push_be16(record: &mut Vec<u8>, len: usize)
    ensures
        final(record)@ == old(record)@ + be16(len as nat),
{
    let hi = ((len % 65536) / 256) as u8;
    let lo = (len % 256) as u8;
    record.push(hi);
    record.push(lo);
    assert(final(record)@ =~= old(record)@ + be16(len as nat));
}

pub fn authority_record(cookie: &[u8]) -> (record: Vec<u8>)
    ensures
        record@ == spec_authority_record(cookie@),
        record@.len() == 28 + cookie@.len(),
{
    let name: [u8; 18] = [77, 73, 84, 45, 77, 65, 71, 73, 67, 45, 67, 79, 79, 75, 73, 69, 45, 49];
    let mut record: Vec<u8> = Vec::new();
    record.push(0xFF);
    record.push(0xFF);
    push_be16(&mut record, 0);
    push_be16(&mut record, 0);
    push_be16(&mut record, 18);
    let ghost before_name = record@;
    let mut k: usize = 0;
    while k < 18
        invariant
            k <= 18,
            name@ == cookie_auth_name(),
            record@ == before_name + name@.take(k as int),
        decreases 18 - k,
    {
        record.push(name[k]);
        k += 1;
        assert(record@ =~= before_name + name@.take(k as int));
    }
    assert(name@.take(18) =~= name@);
    push_be16(&mut record, cookie.len());
    let ghost before_cookie = record@;
    let mut j: usize = 0;
    while j < cookie.len()
        invariant
            j <= cookie@.len(),
            record@ == before_cookie + cookie@.take(j as int),
        decreases cookie@.len() - j,
    {
        record.push(cookie[j]);
        j += 1;
        assert(record@ =~= before_cookie + cookie@.take(j as int));
    }
    assert(cookie@.take(cookie@.len() as int) =~= cookie@);
    assert(record@ =~= spec_authority_record(cookie@));
    record
}

/// Displays considered before giving up.
pub open spec fn max_display() -> nat {
    16
}

/// The first display number, below 16, that `in_use` does not mark taken
/// (`in_use[n]` says whether `/tmp/.X{n}-lock` exists; numbers past its end are
/// taken).
pub fn first_free_display(in_use: &Vec<bool>) -> (r: Option<u32>)
    ensures
        match r {
            Some(n) => n < max_display() && n < in_use@.len() && !in_use@[n as int] && (forall|
                m: int,
            | 0 <= m < n ==> in_use@[m]),
            None => forall|m: int| 0 <= m < max_display() && m < in_use@.len() ==> in_use@[m],
        },
{
    let mut n: usize = 0;
    while n < 16 && n < in_use.len()
        invariant
            n <= 16,
            forall|m: int| 0 <= m < n && m < in_use@.len() ==> in_use@[m],
        decreases 16 - n,
    {
        if !in_use[n] {
            return Some(n as u32);
        }
        n += 1;
    }
    None
}

/// `:{n}`, the name of display `n`.
pub fn display_name(number: u32) -> (r: String)
    ensures
        r@ == ":"@ + decimal(number as nat),
{
    let mut r = owned(":");
    push_decimal(&mut r, number);
    r
}

/// `/tmp/.X{n}-lock`, which exists while display `n` is taken.
pub fn x_lock_path(number: u32) -> (r: String)
    ensures
        r@ == "/tmp/.X"@ + decimal(number as nat) + "-lock"@,
{
    let mut r = owned("/tmp/.X");
    push_decimal(&mut r, number);
    r.append("-lock");
    r
}

/// `/tmp/.X11-unix/X{n}`, the socket display `n` accepts connections on.
pub fn x_socket_path(number: u32) -> (r: String)
    ensures
        r@ == "/tmp/.X11-unix/X"@ + decimal(number as nat),
{
    let mut r = owned("/tmp/.X11-unix/X");
    push_decimal(&mut r, number);
    r
}

/// The arguments Xorg is started with for the greeter: its display, its VT,
/// the authority file, no TCP; `-noreset` so that the one client exiting does
/// not reset it, `-novtswitch` so the VT stays where the desktop will use it.
pub open spec fn spec_x_server_args(number: u32, vtnr: Seq<char>, authority: Seq<char>) -> Seq<
    Seq<char>,
> {
    seq![
        ":"@ + decimal(number as nat),
        "vt"@ + vtnr,
        "-auth"@,
        authority,
        "-nolisten"@,
        "tcp"@,
        "-noreset"@,
        "-novtswitch"@,
    ]
}

pub fn x_server_args(number: u32, vtnr: &str, authority: &str) -> (r: Vec<String>)
    ensures
        r@.map_values(|a: String| a@) == spec_x_server_args(number, vtnr@, authority@),
{
    let mut r: Vec<String> = Vec::new();
    r.push(display_name(number));
    let mut vt = owned("vt");
    vt.append(vtnr);
    r.push(vt);
    r.push(owned("-auth"));
    r.push(owned(authority));
    r.push(owned("-nolisten"));
    r.push(owned("tcp"));
    r.push(owned("-noreset"));
    r.push(owned("-novtswitch"));
    assert(r@.map_values(|a: String| a@) =~= spec_x_server_args(number, vtnr@, authority@));
    r
}

/// The session a request names, from the daemon's own scan -- so what runs as
/// the user is never something the greeter chose. A name that is not offered
/// is an error for the journal: `{username}: unknown session`, the username
/// made journal-safe.
pub fn select_session(sessions: Vec<Session>, requested: &str, username: &str) -> (r: Result<
    Session,
    String,
>)
    ensures
        r matches Ok(s) ==> exists|i: int|
            0 <= i < sessions@.len() && sessions@[i] == s && s.name@ == requested@ && forall|
                m: int,
            | 0 <= m < i ==> sessions@[m].name@ != requested@,
        r is Err <==> forall|i: int| 0 <= i < sessions@.len() ==> sessions@[i].name@ != requested@,
        r matches Err(e) ==> e@ == spec_journal_safe(username@) + ": unknown session"@,
{
    let ghost orig = sessions@;
    let total = sessions.len();
    let mut rest = sessions;
    let mut k: usize = 0;
    while rest.len() > 0
        invariant
            k + rest@.len() == orig.len(),
            total == orig.len(),
            orig == sessions@,
            rest@ == orig.skip(k as int),
            forall|m: int| 0 <= m < k ==> orig[m].name@ != requested@,
        decreases rest.len(),
    {
        let candidate = rest.remove(0);
        assert(candidate == orig[k as int]);
        if str_eq(candidate.name.as_str(), requested) {
            assert(0 <= k < orig.len() && orig[k as int] == candidate);
            return Ok(candidate);
        }
        k += 1;
        assert(rest@ =~= orig.skip(k as int));
    }
    let mut message = journal_safe(username);
    message.append(": unknown session");
    Err(message)
}

/// The journal line for a rejected login: the journal-safe username, then
/// what really happened.
pub fn rejection_detail(username: &str, detail: &str) -> (r: String)
    ensures
        r@ == spec_journal_safe(username@) + ": "@ + detail@,
{
    let mut r = journal_safe(username);
    r.append(": ");
    r.append(detail);
    r
}

} // verus!
