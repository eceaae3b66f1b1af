use tauri_greeter::theme::{
    get_default_theme_css, get_themes, load_theme, load_theme_metadata, system_theme_file, theme_id_from_dir,
    theme_info, user_theme_file, Metadata, ThemeError, ThemeInfo, ThemeSource,
};

#[test]
fn test_default_theme_exists() {
    let result = load_theme("default", None, false, false);
    assert!(matches!(result, Ok(ThemeSource::Embedded)));
    let css = get_default_theme_css();
    assert!(css.is_ok());
    let css = css.unwrap();
    assert!(css.contains("--bg-primary"));
    assert!(css.contains("--accent"));
}

#[test]
fn test_theme_id_from_dir() {
    let id = theme_id_from_dir("/tmp/test-theme");
    assert_eq!(id, "test-theme");
}

#[test]
fn a_directory_id_is_its_last_name() {
    assert_eq!(theme_id_from_dir("/tmp/test-theme/"), "test-theme");
    assert_eq!(theme_id_from_dir("/tmp/test-theme/."), "test-theme");
    assert_eq!(theme_id_from_dir("/"), "unknown");
    assert_eq!(theme_id_from_dir("/tmp/.."), "unknown");
}

fn info(id: &str) -> ThemeInfo {
    ThemeInfo { id: id.into(), name: id.into(), description: None }
}

#[test]
fn the_built_in_theme_is_always_offered_first() {
    let themes = get_themes(true, vec![info("mine")], vec![info("system")]).unwrap();
    let ids: Vec<&str> = themes.iter().map(|t| t.id.as_str()).collect();
    assert_eq!(ids, ["default", "mine", "system"]);
    assert_eq!(themes[0].name, "Default (Dark)");

    let themes = get_themes(true, vec![], vec![info("default"), info("x")]).unwrap();
    let ids: Vec<&str> = themes.iter().map(|t| t.id.as_str()).collect();
    assert_eq!(ids, ["default", "x"]);

    match get_themes(false, vec![], vec![]) {
        Err(ThemeError::NotFound(message)) => assert_eq!(message, "Home directory not found"),
        other => panic!("unexpected {other:?}"),
    }
}

#[test]
fn user_themes_win_over_system_themes() {
    match load_theme("dark", Some("/home/brian"), true, true) {
        Ok(ThemeSource::File(path)) => {
            assert_eq!(path, "/home/brian/.local/share/cssdm/themes/dark/theme.css")
        }
        other => panic!("unexpected {other:?}"),
    }
    match load_theme("dark", Some("/home/brian"), false, true) {
        Ok(ThemeSource::File(path)) => assert_eq!(path, "/usr/share/cssdm/themes/dark/theme.css"),
        other => panic!("unexpected {other:?}"),
    }
    match load_theme("dark", Some("/home/brian"), false, false) {
        Err(ThemeError::NotFound(message)) => assert_eq!(message, "Theme 'dark' not found"),
        other => panic!("unexpected {other:?}"),
    }
    assert!(matches!(load_theme("dark", None, true, true), Err(ThemeError::NotFound(_))));
    assert_eq!(user_theme_file("/root/", "x"), "/root/.local/share/cssdm/themes/x/theme.css");
    assert_eq!(system_theme_file("x"), "/usr/share/cssdm/themes/x/theme.css");
}

#[test]
fn metadata_names_a_theme_or_the_directory_does() {
    let named = theme_info(
        "dark".into(),
        Some(Metadata { name: Some("Very Dark".into()), description: Some("d".into()) }),
    );
    assert_eq!(named.name, "Very Dark");
    assert_eq!(named.description.as_deref(), Some("d"));
    let bare = theme_info("dark".into(), Some(Metadata { name: None, description: None }));
    assert_eq!(bare.name, "dark");
    let none = theme_info("dark".into(), None);
    assert_eq!(none.name, "dark");
    assert!(none.description.is_none());
}

#[test]
fn theme_json_names_and_describes_a_theme() {
    let json = r#"{"name": "Dusk", "description": "Warm and low", "version": 2}"#;
    let theme = load_theme_metadata("/usr/share/cssdm/themes/dusk", Some(json.into())).unwrap();
    assert_eq!(theme.id, "dusk");
    assert_eq!(theme.name, "Dusk");
    assert_eq!(theme.description.as_deref(), Some("Warm and low"));

    // A name that is not a string is no name: the directory's stands in.
    let theme = load_theme_metadata("/themes/plain", Some(r#"{"name": 7}"#.into())).unwrap();
    assert_eq!(theme.name, "plain");
    assert_eq!(theme.description, None);

    let theme = load_theme_metadata("/themes/bare", None).unwrap();
    assert_eq!((theme.id.as_str(), theme.name.as_str()), ("bare", "bare"));
    assert_eq!(theme.description, None);

    match load_theme_metadata("/themes/broken", Some("{ name: ".into())) {
        Err(ThemeError::ParseError(message)) => assert!(!message.is_empty()),
        other => panic!("unexpected {other:?}"),
    }
}
