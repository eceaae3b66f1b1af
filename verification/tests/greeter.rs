use tauri_greeter::greeter::{
    account, backdrop, background_candidates, data_uri, has_picture, image_mime, theme_css,
    theme_directory, theme_path, themes, within_limit, AVATAR_MAX, BACKGROUND_MAX,
};
use tauri_greeter::lightdm::User;

const PNG: &[u8] = b"\x89PNG\r\n\x1a\n and then some";

/// A background is found by stem, inlined, and skipped when oversized -- the
/// last one matters because the failure is a greeter that draws nothing while
/// it encodes someone's 4 GB video file.
#[test]
fn inlines_a_theme_background_beside_its_stylesheet() {
    let candidates = background_candidates("/tmp/tauri-greeter-backdrop-test/dusk.css");

    // Nothing beside the stylesheet.
    assert_eq!(backdrop(&vec![None, None, None, None]), "");

    assert_eq!(candidates[0], "/tmp/tauri-greeter-backdrop-test/dusk.png");
    let rule = backdrop(&vec![data_uri(PNG)]);
    assert!(rule.contains("--backdrop:"), "{rule}");
    assert!(rule.contains("data:image/png;base64,"), "{rule}");

    // Too big to be read at all, so it is never found.
    assert_eq!(candidates[1], "/tmp/tauri-greeter-backdrop-test/dusk.jpg");
    assert!(!within_limit(BACKGROUND_MAX + 1, BACKGROUND_MAX));
    assert_eq!(backdrop(&vec![None, None, None, None]), "");
}

/// The type in the URI comes from the bytes, not the name: LightDM hands back
/// `/var/lib/AccountsService/icons/<user>`, which has no extension at all.
#[test]
fn types_a_picture_by_its_contents_not_its_name() {
    assert!(data_uri(b"\xff\xd8\xff\xe0 jpeg-ish")
        .unwrap()
        .starts_with("data:image/jpeg;base64,"));
    assert!(data_uri(PNG).unwrap().starts_with("data:image/png;base64,"));

    // Whatever this is, it is not a picture, and guessing would put a broken
    // image where the avatar goes.
    assert_eq!(data_uri(b"root:x:0:0:..."), None);
    assert!(within_limit(AVATAR_MAX, AVATAR_MAX));
}

#[test]
fn encodes_the_picture_itself() {
    assert_eq!(data_uri(b"\x89PNG").unwrap(), "data:image/png;base64,iVBORw==");
    assert_eq!(data_uri(b"GIF89a").unwrap(), "data:image/gif;base64,R0lGODlh");
}

#[test]
fn knows_each_picture_signature() {
    assert_eq!(image_mime(b"\x89PNG"), Some("image/png"));
    assert_eq!(image_mime(b"\xff\xd8\xff"), Some("image/jpeg"));
    assert_eq!(image_mime(b"GIF87a"), Some("image/gif"));
    assert_eq!(image_mime(b"RIFF\x00\x00\x00\x00WEBPVP8 "), Some("image/webp"));
    assert_eq!(image_mime(b"RIFF\x00\x00\x00\x00WAVE"), None);
    assert_eq!(image_mime(b"<svg xmlns"), Some("image/svg+xml"));
    assert_eq!(image_mime(b"<?xml version"), Some("image/svg+xml"));
    assert_eq!(image_mime(b"\x89PN"), None);
    assert_eq!(image_mime(b""), None);
}

#[test]
fn the_first_picture_found_wins() {
    let rule = backdrop(&vec![None, Some("data:a".to_string()), Some("data:b".to_string())]);
    assert_eq!(rule, ":root { --backdrop: url(\"data:a\") center / cover no-repeat; }\n");
    assert_eq!(
        background_candidates("/etc/tauri-greeter/theme.css"),
        [
            "/etc/tauri-greeter/theme.png",
            "/etc/tauri-greeter/theme.jpg",
            "/etc/tauri-greeter/theme.jpeg",
            "/etc/tauri-greeter/theme.webp",
        ]
    );
    assert_eq!(background_candidates("plain")[3], "plain.webp");
}

#[test]
fn the_picker_lists_installed_stylesheets_sorted() {
    let listed = themes(vec![
        "nebula.css".to_string(),
        "README.md".to_string(),
        "dusk.css".to_string(),
        "dusk.png".to_string(),
        ".css".to_string(),
        "midnight.css".to_string(),
    ]);
    assert_eq!(listed, ["dusk", "midnight", "nebula"]);
}

#[test]
fn only_an_offered_theme_is_ever_opened() {
    let offered = vec!["dusk".to_string(), "nebula".to_string()];
    assert_eq!(theme_path("", &offered).unwrap(), "/etc/tauri-greeter/theme.css");
    assert_eq!(
        theme_path("dusk", &offered).unwrap(),
        "/usr/share/tauri-greeter/themes/dusk.css"
    );
    assert_eq!(theme_path("../../../etc/shadow", &offered), None);
    assert_eq!(theme_css("rule;".to_string(), Some("css".to_string())), "rule;css");
    assert_eq!(theme_css("rule;".to_string(), None), "rule;");
}

#[test]
fn an_account_without_a_picture_draws_the_fallback() {
    let user = User {
        name: "brian".into(),
        display_name: "Brian".into(),
        image: String::new(),
        session: String::new(),
        language: String::new(),
        layout: String::new(),
        logged_in: false,
    };
    assert!(!has_picture(&user));
    let shown = account(user, None);
    assert_eq!(shown.picture, "");
}

#[test]
fn the_picker_lists_the_installed_theme_directory() {
    assert_eq!(theme_directory(), "/usr/share/tauri-greeter/themes");
    let offered = vec!["dusk".to_string()];
    assert_eq!(
        theme_path("dusk", &offered).unwrap(),
        format!("{}/dusk.css", theme_directory())
    );
}
