//! What the greeter's commands make of files: pictures inlined as `data:`
//! URIs typed from their bytes, the theme picker's list, which stylesheet a
//! theme name may open, and the background rule a picture beside it becomes.
use vstd::prelude::*;

use base64::prelude::Engine;

use crate::lightdm::User;
use crate::order::{sort_by_key, stable_sort_of, SortKey};
use crate::text::{
    chars_of, concat_chars, copy_range, extension, extension_chars, file_stem, file_stem_chars,
    owned, str_eq, string_of,
};

verus! {

/// The operator's stylesheet, applied over whichever theme is showing.
pub open spec fn theme_css_path() -> Seq<char> {
    "/etc/tauri-greeter/theme.css"@
}

/// Where the installed stylesheets the picker switches between live.
pub open spec fn theme_dir() -> Seq<char> {
    "/usr/share/tauri-greeter/themes"@
}

/// The directory the theme picker lists.
pub fn theme_directory() -> (r: &'static str)
    ensures
        r@ == theme_dir(),
{
    "/usr/share/tauri-greeter/themes"
}

/// The greeter renders in software and holds the decoded frame as well as the
/// base64 copy of the file. A wallpaper past this is a mistake, not a theme.
pub const BACKGROUND_MAX: u64 = 16 * 1024 * 1024;

/// An account picture is drawn at a few dozen pixels; anything approaching
/// this is someone's holiday photo in `~/.face`.
pub const AVATAR_MAX: u64 = 4 * 1024 * 1024;

/// A file of `size` bytes may be inlined under `limit`: it is read at all only
/// when it is not over the limit.
pub fn within_limit(size: u64, limit: u64) -> (r: bool)
    ensures
        r == (size <= limit),
{
    size <= limit
}

/// What kind of picture `bytes` is, from its first bytes rather than its name:
/// the PNG, JPEG, GIF and WebP signatures, and an SVG that starts `<svg` or
/// `<?xml`.
pub open spec fn spec_image_mime(b: Seq<u8>) -> Option<Seq<char>> {
    if b.len() >= 4 && b[0] == 0x89 && b[1] == 0x50 && b[2] == 0x4E && b[3] == 0x47 {
        Some("image/png"@)
    } else if b.len() >= 3 && b[0] == 0xff && b[1] == 0xd8 && b[2] == 0xff {
        Some("image/jpeg"@)
    } else if b.len() >= 4 && b[0] == 0x47 && b[1] == 0x49 && b[2] == 0x46 && b[3] == 0x38 {
        Some("image/gif"@)
    } else if b.len() >= 12 && b[0] == 0x52 && b[1] == 0x49 && b[2] == 0x46 && b[3] == 0x46
        && b[8] == 0x57 && b[9] == 0x45 && b[10] == 0x42 && b[11] == 0x50 {
        Some("image/webp"@)
    } else if (b.len() >= 4 && b[0] == 0x3C && b[1] == 0x73 && b[2] == 0x76 && b[3] == 0x67) || (
    b.len() >= 5 && b[0] == 0x3C && b[1] == 0x3F && b[2] == 0x78 && b[3] == 0x6D && b[4] == 0x6C) {
        Some("image/svg+xml"@)
    } else {
        None
    }
}

/// A `data:` URI has to carry a truthful type -- the webview will not sniff
/// one -- and the files here are named by LightDM and by whoever wrote the
/// theme, neither of whom promised the extension matches.
pub fn image_mime(bytes: &[u8]) -> (r: Option<&'static str>)
    ensures
        r is Some <==> spec_image_mime(bytes@) is Some,
        r matches Some(m) ==> spec_image_mime(bytes@) == Some(m@),
{
    let n = bytes.len();
    if n >= 4 && bytes[0] == 0x89 && bytes[1] == 0x50 && bytes[2] == 0x4E && bytes[3] == 0x47 {
        Some("image/png")
    } else if n >= 3 && bytes[0] == 0xff && bytes[1] == 0xd8 && bytes[2] == 0xff {
        Some("image/jpeg")
    } else if n >= 4 && bytes[0] == 0x47 && bytes[1] == 0x49 && bytes[2] == 0x46 && bytes[3]
        == 0x38 {
        Some("image/gif")
    } else if n >= 12 && bytes[0] == 0x52 && bytes[1] == 0x49 && bytes[2] == 0x46 && bytes[3]
        == 0x46 && bytes[8] == 0x57 && bytes[9] == 0x45 && bytes[10] == 0x42 && bytes[11] == 0x50 {
        Some("image/webp")
    } else if (n >= 4 && bytes[0] == 0x3C && bytes[1] == 0x73 && bytes[2] == 0x76 && bytes[3]
        == 0x67) || (n >= 5 && bytes[0] == 0x3C && bytes[1] == 0x3F && bytes[2] == 0x78 && bytes[3]
        == 0x6D && bytes[4] == 0x6C) {
        Some("image/svg+xml")
    } else {
        None
    }
}

/// The standard base64 alphabet's padded encoding of `bytes`, as
/// `base64::engine::general_purpose::STANDARD.encode` produces it.
pub uninterp spec fn base64_standard(bytes: Seq<u8>) -> Seq<char>;

/// Whether the length of `n` bytes' encoding fits in `usize`, the one case in
/// which `Engine::encode` does not panic.
pub open spec fn base64_encodable(n: nat) -> bool {
    if n % 3 == 0 {
        (n / 3) * 4 <= usize::MAX
    } else {
        (n / 3) * 4 + 4 <= usize::MAX
    }
}

/// `base64::prelude::BASE64_STANDARD.encode` (`Engine::encode` on the padded
/// standard engine). Claimed: the result is the named encoding of the bytes,
/// four characters for every three bytes begun (`encoded_len` with padding),
/// and it panics only when that length overflows `usize`, which `requires`
/// leaves out.
#[verifier::external_body]
fn base64_encode(bytes: &[u8]) -> (encoded: String)
    requires
        base64_encodable(bytes@.len()),
    ensures
        encoded@ == base64_standard(bytes@),
        encoded@.len() == 4 * ((bytes@.len() + 2) / 3),
{
    base64::prelude::BASE64_STANDARD.encode(bytes)
}

/// A picture as a `data:` URI: `data:{type};base64,{encoding}` with the type
/// read from its bytes; nothing if the bytes are not a picture.
pub open spec fn spec_data_uri(bytes: Seq<u8>) -> Option<Seq<char>> {
    match spec_image_mime(bytes) {
        None => None,
        Some(mime) => Some("data:"@ + mime + ";base64,"@ + base64_standard(bytes)),
    }
}

/// A picture's bytes as a `data:` URI, or nothing if they are not a picture.
/// The webview serves from `tauri://`, where an absolute path is not the
/// filesystem's, so every image has to travel inline.
pub fn data_uri(bytes: &[u8]) -> (r: Option<String>)
    requires
        base64_encodable(bytes@.len()),
    ensures
        r is Some <==> spec_data_uri(bytes@) is Some,
        r matches Some(uri) ==> spec_data_uri(bytes@) == Some(uri@),
{
    match image_mime(bytes) {
        None => None,
        Some(mime) => {
            let mut uri = owned("data:");
            uri.append(mime);
            uri.append(";base64,");
            let encoded = base64_encode(bytes);
            uri.append(encoded.as_str());
            Some(uri)
        },
    }
}

/// A LightDM account with its picture already inlined, since the webview
/// cannot open `/var/lib/AccountsService/icons/...` for itself.
#[derive(Debug)]
pub struct Account {
    pub user: User,
    /// A `data:` URI, or empty for the drawn fallback avatar.
    pub picture: String,
}

/// Whether an account's picture is looked for at all: only when LightDM gave
/// it a path.
pub fn has_picture(user: &User) -> (r: bool)
    ensures
        r == (user.image@.len() > 0),
{
    !user.image.as_str().is_empty()
}

/// An account for the UI: the inlined picture when one was found, else empty,
/// which draws the fallback avatar -- the normal case for `~/.face` under a
/// 0700 home.
pub fn account(user: User, picture: Option<String>) -> (r: Account)
    ensures
        r.user == user,
        match picture {
            Some(p) => r.picture == p,
            None => r.picture@.len() == 0,
        },
{
    let picture = match picture {
        Some(p) => p,
        None => String::new(),
    };
    Account { user, picture }
}

impl SortKey for String {
    open spec fn sort_key(&self) -> Seq<char> {
        self@
    }

    fn key_chars(&self) -> (k: Vec<char>) {
        chars_of(self.as_str())
    }
}

/// The picker entry a directory entry makes: the stem of a `.css` file.
pub open spec fn css_theme(file_name: Seq<char>) -> Option<Seq<char>> {
    if extension(file_name) == Some("css"@) {
        Some(file_stem(file_name))
    } else {
        None
    }
}

/// The theme names in the installed theme directory, given its entries' file
/// names: each `.css` file's stem, sorted.
pub fn themes(file_names: Vec<String>) -> (out: Vec<String>)
    ensures
        exists|found: Seq<String>|
            found.map_values(|s: String| s@) == file_names@.map_values(|s: String| s@).filter_map(
                |n: Seq<char>| css_theme(n),
            ) && stable_sort_of(out@, found),
{
    let ghost views = file_names@.map_values(|s: String| s@);
    let css = chars_of("css");
    let mut found: Vec<String> = Vec::new();
    let mut i: usize = 0;
    while i < file_names.len()
        invariant
            i <= file_names.len(),
            css@ == "css"@,
            views == file_names@.map_values(|s: String| s@),
            found@.map_values(|s: String| s@) == views.take(i as int).filter_map(
                |n: Seq<char>| css_theme(n),
            ),
        decreases file_names.len() - i,
    {
        let ghost before = found@.map_values(|s: String| s@);
        let name = chars_of(file_names[i].as_str());
        proof {
            assert(views.take(i + 1).drop_last() =~= views.take(i as int));
            assert(views.take(i + 1).last() == file_names@[i as int]@);
            reveal_with_fuel(Seq::filter_map, 1);
        }
        let is_css = match extension_chars(&name) {
            None => false,
            Some(e) => crate::text::chars_eq(&e, &css),
        };
        if is_css {
            let stem = file_stem_chars(&name);
            found.push(string_of(&stem));
            assert(found@.map_values(|s: String| s@) =~= before.push(stem@));
        }
        i += 1;
    }
    assert(views.take(file_names.len() as int) =~= views);
    sort_by_key(found)
}

/// The stylesheet a theme name may open: the operator's for an empty name,
/// the installed `{name}.css` for a name the listing actually offers, and
/// nothing for any other -- so a crafted request cannot walk out of the theme
/// directory and read, say, shadow.
pub open spec fn spec_theme_path(name: Seq<char>, offered: Seq<Seq<char>>) -> Option<Seq<char>> {
    if name.len() == 0 {
        Some(theme_css_path())
    } else if offered.contains(name) {
        Some(theme_dir() + "/"@ + name + ".css"@)
    } else {
        None
    }
}

pub fn theme_path(name: &str, offered: &Vec<String>) -> (r: Option<String>)
    ensures
        r is Some <==> spec_theme_path(name@, offered@.map_values(|s: String| s@)) is Some,
        r matches Some(p) ==> spec_theme_path(name@, offered@.map_values(|s: String| s@)) == Some(
            p@,
        ),
{
    let ghost views = offered@.map_values(|s: String| s@);
    if name.is_empty() {
        return Some(owned("/etc/tauri-greeter/theme.css"));
    }
    let mut i: usize = 0;
    while i < offered.len()
        invariant
            i <= offered.len(),
            views == offered@.map_values(|s: String| s@),
            name@.len() != 0,
            forall|m: int| 0 <= m < i ==> views[m] != name@,
        decreases offered.len() - i,
    {
        if str_eq(offered[i].as_str(), name) {
            assert(views[i as int] == name@);
            assert(views.contains(name@));
            assert(name@.len() != 0);
            let mut path = owned("/usr/share/tauri-greeter/themes");
            path.append("/");
            path.append(name);
            path.append(".css");
            assert(path@ =~= theme_dir() + "/"@ + name@ + ".css"@);
            return Some(path);
        }
        i += 1;
    }
    assert(!views.contains(name@));
    None
}

/// The background rule a theme's picture makes, handed back ahead of the
/// theme's own CSS so a theme that wants it placed differently just restates
/// `--backdrop` and wins on order.
pub open spec fn backdrop_rule(uri: Seq<char>) -> Seq<char> {
    ":root { --backdrop: url(\""@ + uri + "\") center / cover no-repeat; }\n"@
}

/// The first picture found, in the order tried.
pub open spec fn first_found(found: Seq<Option<String>>) -> Option<Seq<char>>
    decreases found.len(),
{
    if found.len() == 0 {
        None
    } else {
        match found[0] {
            Some(uri) => Some(uri@),
            None => first_found(found.drop_first()),
        }
    }
}

/// The stylesheet a theme's picture makes, given what was found beside it for
/// each of `png`, `jpg`, `jpeg`, `webp` in that order (a `data:` URI, or
/// nothing): the rule for the first found, and nothing when there is none.
/// The first match wins, so `dusk.css` takes `dusk.png` over `dusk.jpg`.
pub fn backdrop(found: &Vec<Option<String>>) -> (r: String)
    ensures
        match first_found(found@) {
            Some(uri) => r@ == backdrop_rule(uri),
            None => r@.len() == 0,
        },
{
    let mut i: usize = 0;
    assert(found@.skip(0) =~= found@);
    while i < found.len()
        invariant
            i <= found.len(),
            first_found(found@) == first_found(found@.skip(i as int)),
        decreases found.len() - i,
    {
        assert(found@.skip(i as int)[0] == found@[i as int]);
        match &found[i] {
            Some(uri) => {
                let mut rule = owned(":root { --backdrop: url(\"");
                rule.append(uri.as_str());
                rule.append("\") center / cover no-repeat; }\n");
                return rule;
            },
            None => {},
        }
        assert(found@.skip(i as int).drop_first() =~= found@.skip(i + 1));
        i += 1;
    }
    String::new()
}

/// The extensions a theme's picture may have, in the order they are tried.
pub open spec fn background_extensions() -> Seq<Seq<char>> {
    seq!["png"@, "jpg"@, "jpeg"@, "webp"@]
}

/// Where the last `/` of a path is.
pub open spec fn last_slash(p: Seq<char>) -> int
    decreases p.len(),
{
    if p.len() == 0 {
        -1
    } else if p.last() == '/' {
        p.len() - 1
    } else {
        last_slash(p.drop_last())
    }
}

/// A stylesheet's path with its file name's extension replaced by `ext` (or
/// added, if it has none), as `Path::with_extension` does for a path that ends
/// in a file name.
pub open spec fn with_extension(path: Seq<char>, ext: Seq<char>) -> Seq<char> {
    let cut = last_slash(path) + 1;
    let dir = path.take(cut);
    let name = path.skip(cut);
    let stem = if extension(name) is Some {
        file_stem(name)
    } else {
        name
    };
    dir + stem + "."@ + ext
}

proof fn lemma_last_slash(p: Seq<char>)
    ensures
        -1 <= last_slash(p) < p.len(),
    decreases p.len(),
{
    if p.len() > 0 && p.last() != '/' {
        lemma_last_slash(p.drop_last());
    }
}

fn with_extension_chars(path: &Vec<char>, ext: &str) -> (r: String)
    ensures
        r@ == with_extension(path@, ext@),
{
    let mut j = path.len();
    assert(path@.take(path.len() as int) =~= path@);
    while j > 0 && path[j - 1] != '/'
        invariant
            j <= path.len(),
            last_slash(path@) == last_slash(path@.take(j as int)),
        decreases j,
    {
        assert(path@.take(j as int).drop_last() =~= path@.take(j - 1));
        j -= 1;
    }
    proof {
        if j == 0 {
            assert(path@.take(0) =~= Seq::<char>::empty());
        } else {
            assert(path@.take(j as int).last() == '/');
        }
    }
    let dir = copy_range(path, 0, j);
    let name = copy_range(path, j, path.len());
    assert(dir@ =~= path@.take(j as int));
    assert(name@ =~= path@.skip(j as int));
    let stem = match extension_chars(&name) {
        Some(_) => file_stem_chars(&name),
        None => name,
    };
    let joined = concat_chars(&dir, &stem);
    let mut r = string_of(&joined);
    r.append(".");
    r.append(ext);
    r
}

/// The pictures that may stand beside a stylesheet, in the order they are
/// tried: its path with the extension `png`, `jpg`, `jpeg`, then `webp`.
pub fn background_candidates(css: &str) -> (r: Vec<String>)
    ensures
        r@.len() == 4,
        forall|i: int|
            0 <= i < 4 ==> #[trigger] r@[i]@ == with_extension(css@, background_extensions()[i]),
{
    let path = chars_of(css);
    let mut r: Vec<String> = Vec::new();
    r.push(with_extension_chars(&path, "png"));
    r.push(with_extension_chars(&path, "jpg"));
    r.push(with_extension_chars(&path, "jpeg"));
    r.push(with_extension_chars(&path, "webp"));
    r
}

/// The stylesheet served for a theme: its background rule, then its CSS --
/// empty when the file could not be read. A picture on its own is a whole
/// theme, so the rule stands even with no CSS.
pub fn theme_css(backdrop: String, css: Option<String>) -> (r: String)
    ensures
        r@ == backdrop@ + (match css {
            Some(c) => c@,
            None => Seq::<char>::empty(),
        }),
{
    let mut r = backdrop;
    match css {
        Some(c) => r.append(c.as_str()),
        None => {},
    }
    assert(css is None ==> r@ =~= r@ + Seq::<char>::empty());
    r
}

} // verus!
