//! Theme directories holding a `theme.css` and, optionally, a `theme.json`
//! naming and describing the theme; the user's own themes are listed before
//! the system's, and the built-in dark theme is always on offer.
use vstd::prelude::*;

use crate::text::{chars_eq, chars_of, copy_range, owned, split, split_chars, str_eq, string_of};

verus! {

/// `std::io::Error`, declared so that `ThemeError::IoError` can carry one. It
/// is opaque here: nothing is claimed of what it holds.
#[verifier::external_type_specification]
#[verifier::external_body]
pub struct ExIoError(std::io::Error);

/// Why a theme could not be listed or loaded.
#[derive(Debug)]
pub enum ThemeError {
    NotFound(String),
    IoError(std::io::Error),
    ParseError(String),
}

/// A theme the picker can offer.
#[derive(Debug)]
pub struct ThemeInfo {
    pub id: String,
    pub name: String,
    pub description: Option<String>,
}

/// A theme with its stylesheet.
#[derive(Debug)]
pub struct ThemeData {
    pub name: String,
    pub description: Option<String>,
    pub css: String,
}

/// The id of the built-in theme.
pub open spec fn default_id() -> Seq<char> {
    "default"@
}

/// `Option<String>` as text.
pub open spec fn opt_text(o: Option<String>) -> Option<Seq<char>> {
    match o {
        Some(s) => Some(s@),
        None => None,
    }
}

/// The built-in theme's entry.
pub open spec fn is_default_entry(t: ThemeInfo) -> bool {
    &&& t.id@ == default_id()
    &&& t.name@ == "Default (Dark)"@
    &&& opt_text(t.description) == Some("Built-in dark theme"@)
}

/// Whether any of `themes` has the id `default`.
pub open spec fn has_default(themes: Seq<ThemeInfo>) -> bool {
    exists|i: int| 0 <= i < themes.len() && themes[i].id@ == default_id()
}

/// The themes on offer, given whether a home directory was found and the
/// themes read from the user's and the system's theme directories (empty when
/// a directory is missing or unreadable): with no home directory, `NotFound`;
/// otherwise the user's themes, then the system's, with the built-in theme put
/// first unless one of them already has its id. The list is therefore never
/// empty.
pub fn get_themes(home_found: bool, user_themes: Vec<ThemeInfo>, system_themes: Vec<ThemeInfo>) -> (r:
    Result<Vec<ThemeInfo>, ThemeError>)
    ensures
        !home_found ==> (r matches Err(ThemeError::NotFound(m)) && m@
            == "Home directory not found"@),
        home_found ==> (r matches Ok(themes) && {
            let listed = user_themes@ + system_themes@;
            &&& has_default(listed) ==> themes@ == listed
            &&& !has_default(listed) ==> themes@.len() == listed.len() + 1 && is_default_entry(
                themes@[0],
            ) && themes@.skip(1) == listed
            &&& themes@.len() > 0
        }),
{
    if !home_found {
        return Err(ThemeError::NotFound(owned("Home directory not found")));
    }
    let mut themes = user_themes;
    let mut system = system_themes;
    let ghost listed = themes@ + system@;
    themes.append(&mut system);
    assert(themes@ =~= listed);
    let mut i: usize = 0;
    let mut found = false;
    while i < themes.len()
        invariant
            i <= themes.len(),
            themes@ == listed,
            found == (exists|m: int| 0 <= m < i && themes@[m].id@ == default_id()),
        decreases themes.len() - i,
    {
        if str_eq(themes[i].id.as_str(), "default") {
            found = true;
        }
        i += 1;
    }
    if !found {
        let entry = ThemeInfo {
            id: owned("default"),
            name: owned("Default (Dark)"),
            description: Some(owned("Built-in dark theme")),
        };
        themes.insert(0, entry);
        assert(themes@.skip(1) =~= listed);
    }
    Ok(themes)
}

/// The built-in stylesheet's custom properties: a dark theme.
pub open spec fn default_theme_css() -> Seq<char> {
    ":root {\n  --bg-primary: #1a1a1a;\n  --bg-secondary: #2d2d2d;\n  --text-primary: #ffffff;\n  --text-secondary: #aaaaaa;\n  --accent: #00d4ff;\n  --input-bg: #333333;\n  --button-hover: #0099cc;\n  --border-radius: 8px;\n  --transition: all 0.2s ease;\n}\n"@
}

/// The built-in theme, embedded in the greeter.
pub fn get_default_theme_css() -> (r: Result<String, ThemeError>)
    ensures
        r matches Ok(css) && css@ == default_theme_css(),
{
    Ok(
        owned(
            ":root {\n  --bg-primary: #1a1a1a;\n  --bg-secondary: #2d2d2d;\n  --text-primary: #ffffff;\n  --text-secondary: #aaaaaa;\n  --accent: #00d4ff;\n  --input-bg: #333333;\n  --button-hover: #0099cc;\n  --border-radius: 8px;\n  --transition: all 0.2s ease;\n}\n",
        ),
    )
}

/// Where a stylesheet for a theme comes from.
#[derive(Debug)]
pub enum ThemeSource {
    /// The built-in stylesheet.
    Embedded,
    /// A `theme.css` file, read from this path.
    File(String),
}

/// `PathBuf::push` of a relative path onto `base`: a `/` between them unless
/// `base` is empty or already ends in one.
pub open spec fn joined(base: Seq<char>, rel: Seq<char>) -> Seq<char> {
    if base.len() > 0 && base.last() != '/' {
        base + "/"@ + rel
    } else {
        base + rel
    }
}

fn join(base: &str, rel: &str) -> (r: String)
    ensures
        r@ == joined(base@, rel@),
{
    let chars = chars_of(base);
    let n = chars.len();
    let mut r = owned(base);
    if n > 0 && chars[n - 1] != '/' {
        r.append("/");
    }
    r.append(rel);
    r
}

/// The user's own stylesheet for a theme.
pub open spec fn user_theme_path(home: Seq<char>, theme_id: Seq<char>) -> Seq<char> {
    joined(home, ".local/share/cssdm/themes/"@ + theme_id + "/theme.css"@)
}

/// The system's stylesheet for a theme.
pub open spec fn system_theme_path(theme_id: Seq<char>) -> Seq<char> {
    "/usr/share/cssdm/themes/"@ + theme_id + "/theme.css"@
}

pub fn user_theme_file(home: &str, theme_id: &str) -> (r: String)
    ensures
        r@ == user_theme_path(home@, theme_id@),
{
    let mut rel = owned(".local/share/cssdm/themes/");
    rel.append(theme_id);
    rel.append("/theme.css");
    join(home, rel.as_str())
}

pub fn system_theme_file(theme_id: &str) -> (r: String)
    ensures
        r@ == system_theme_path(theme_id@),
{
    let mut path = owned("/usr/share/cssdm/themes/");
    path.append(theme_id);
    path.append("/theme.css");
    path
}

/// Which stylesheet `load_theme` reads for a theme id, given the home
/// directory (when one was found) and whether the user's and the system's
/// `theme.css` for it exist: the built-in one for `default`; without a home
/// directory, `NotFound`; the user's theme over the system's; and `NotFound`,
/// naming the theme, when neither exists.
pub fn load_theme(
    theme_id: &str,
    home: Option<&str>,
    user_theme_exists: bool,
    system_theme_exists: bool,
) -> (r: Result<ThemeSource, ThemeError>)
    ensures
        theme_id@ == default_id() ==> (r matches Ok(ThemeSource::Embedded)),
        theme_id@ != default_id() && home is None ==> (r matches Err(ThemeError::NotFound(m)) && m@
            == "Home directory not found"@),
        theme_id@ != default_id() && home is Some && user_theme_exists ==> (r matches Ok(
            ThemeSource::File(p),
        ) && p@ == user_theme_path(home.unwrap()@, theme_id@)),
        theme_id@ != default_id() && home is Some && !user_theme_exists && system_theme_exists ==> (
        r matches Ok(ThemeSource::File(p)) && p@ == system_theme_path(theme_id@)),
        theme_id@ != default_id() && home is Some && !user_theme_exists && !system_theme_exists ==> (
        r matches Err(ThemeError::NotFound(m)) && m@ == "Theme '"@ + theme_id@ + "' not found"@),
{
    if str_eq(theme_id, "default") {
        return Ok(ThemeSource::Embedded);
    }
    let home = match home {
        None => {
            return Err(ThemeError::NotFound(owned("Home directory not found")));
        },
        Some(h) => h,
    };
    if user_theme_exists {
        return Ok(ThemeSource::File(user_theme_file(home, theme_id)));
    }
    if system_theme_exists {
        return Ok(ThemeSource::File(system_theme_file(theme_id)));
    }
    let mut message = owned("Theme '");
    message.append(theme_id);
    message.append("' not found");
    Err(ThemeError::NotFound(message))
}

/// `Path::file_name`: the last component of a path, when that is a name --
/// empty and `.` components do not count, and `..` or no component at all
/// gives none.
pub open spec fn path_file_name(path: Seq<char>) -> Option<Seq<char>> {
    let names = split(path, '/').filter(|c: Seq<char>| c.len() > 0 && c != seq!['.']);
    if names.len() == 0 || names.last() == seq!['.', '.'] {
        None
    } else {
        Some(names.last())
    }
}

/// A theme directory's id: its name, or `unknown` when it has none.
pub open spec fn spec_theme_id(dir: Seq<char>) -> Seq<char> {
    match path_file_name(dir) {
        Some(n) => n,
        None => "unknown"@,
    }
}

pub fn theme_id_from_dir(dir: &str) -> (r: String)
    ensures
        r@ == spec_theme_id(dir@),
{
    let chars = chars_of(dir);
    let parts = split_chars(&chars, '/');
    let ghost views = parts@.map_values(|p: Vec<char>| p@);
    let ghost pred = |c: Seq<char>| c.len() > 0 && c != seq!['.'];
    let mut last: Option<usize> = None;
    let mut i: usize = 0;
    let dot = vec!['.'];
    assert(dot@ =~= seq!['.']);
    while i < parts.len()
        invariant
            i <= parts.len(),
            views == parts@.map_values(|p: Vec<char>| p@),
            dot@ == seq!['.'],
            pred == (|c: Seq<char>| c.len() > 0 && c != seq!['.']),
            match last {
                None => views.take(i as int).filter(pred).len() == 0,
                Some(k) => k < i && views.take(i as int).filter(pred).len() > 0 && views.take(
                    i as int,
                ).filter(pred).last() == views[k as int],
            },
        decreases parts.len() - i,
    {
        proof {
            reveal_with_fuel(Seq::filter, 1);
            assert(views.take(i + 1).drop_last() =~= views.take(i as int));
            assert(views.take(i + 1).last() == parts@[i as int]@);
        }
        if parts[i].len() > 0 && !chars_eq(&parts[i], &dot) {
            last = Some(i);
        }
        i += 1;
    }
    assert(views.take(parts.len() as int) =~= views);
    match last {
        None => owned("unknown"),
        Some(k) => {
            let name = &parts[k];
            let parent = name.len() == 2 && name[0] == '.' && name[1] == '.';
            if parent {
                assert(name@ =~= seq!['.', '.']);
                owned("unknown")
            } else {
                assert(name@ != seq!['.', '.']);
                string_of(name)
            }
        },
    }
}

/// The message `serde_json::from_str` gives when `text` is not a JSON
/// document, or none when it is one.
pub uninterp spec fn json_error(text: Seq<char>) -> Option<Seq<char>>;

/// The string member `key` of the JSON document `text`, as `serde_json` reads
/// it: none when `text` is not a JSON object with a member `key` whose value
/// is a string.
pub uninterp spec fn json_string_member(text: Seq<char>, key: Seq<char>) -> Option<Seq<char>>;

/// Parses `text` with `serde_json::from_str` into a `serde_json::Value` and
/// hands back the parser's message when that fails. The message is taken to
/// depend on `text` alone; what it says is left to `serde_json`.
#[verifier::external_body]
fn json_parse_error(text: &str) -> (r: Option<String>)
    ensures
        opt_text(r) == json_error(text@),
{
    serde_json::from_str::<serde_json::Value>(text).err().map(|e| e.to_string())
}

/// Parses `text` with `serde_json::from_str` into a `serde_json::Value`, then
/// reads the member `key` with `Value::get` and `Value::as_str`. Which strings
/// `serde_json` accepts as JSON, and how it unescapes them, is left unstated.
#[verifier::external_body]
fn json_member(text: &str, key: &str) -> (r: Option<String>)
    ensures
        opt_text(r) == json_string_member(text@, key@),
{
    serde_json::from_str::<serde_json::Value>(text).ok().and_then(
        |v| v.get(key).and_then(|m| m.as_str()).map(|m| m.to_string()),
    )
}

/// What a theme's `theme.json` says: its `name` and `description`, where each
/// is a string.
#[derive(Debug)]
pub struct Metadata {
    pub name: Option<String>,
    pub description: Option<String>,
}

/// A theme directory's entry for the picker, given its id and what its
/// `theme.json` says (nothing when it has none): the metadata's name, or the
/// id when it gives none; and the metadata's description.
pub fn theme_info(id: String, metadata: Option<Metadata>) -> (r: ThemeInfo)
    ensures
        r.id@ == id@,
        match metadata {
            Some(m) => {
                &&& r.name@ == (match m.name {
                    Some(n) => n@,
                    None => id@,
                })
                &&& r.description == m.description
            },
            None => r.name@ == id@ && r.description is None,
        },
{
    match metadata {
        Some(m) => {
            let name = match m.name {
                Some(n) => n,
                None => id.clone(),
            };
            ThemeInfo { id, name, description: m.description }
        },
        None => {
            let name = id.clone();
            ThemeInfo { id, name, description: None }
        },
    }
}

/// A theme directory's entry, given the text of its `theme.json` when it has
/// one: with no `theme.json`, the directory's name as both id and name; a
/// `theme.json` that is not JSON is a `ParseError` carrying the parser's
/// message; otherwise its string `name` (the id when it has none) and string
/// `description`.
pub fn load_theme_metadata(theme_dir: &str, theme_json: Option<String>) -> (r: Result<
    ThemeInfo,
    ThemeError,
>)
    ensures
        theme_json is None ==> (r matches Ok(t) && t.id@ == spec_theme_id(theme_dir@) && t.name@
            == spec_theme_id(theme_dir@) && t.description is None),
        theme_json matches Some(text) ==> match json_error(text@) {
            Some(message) => r matches Err(ThemeError::ParseError(m)) && m@ == message,
            None => r matches Ok(t) && t.id@ == spec_theme_id(theme_dir@) && t.name@ == (match json_string_member(text@, "name"@) {
                Some(n) => n,
                None => spec_theme_id(theme_dir@),
            }) && opt_text(t.description) == json_string_member(text@, "description"@),
        },
{
    match theme_json {
        None => {
            let id = theme_id_from_dir(theme_dir);
            Ok(theme_info(id, None))
        },
        Some(text) => {
            if let Some(message) = json_parse_error(text.as_str()) {
                return Err(ThemeError::ParseError(message));
            }
            let id = theme_id_from_dir(theme_dir);
            let name = json_member(text.as_str(), "name");
            let description = json_member(text.as_str(), "description");
            Ok(theme_info(id, Some(Metadata { name, description })))
        },
    }
}

} // verus!
