use pi::theme::Theme;

#[test]
fn default_themes_validate() {
    Theme::dark().validate().expect("dark theme valid");
    Theme::light().validate().expect("light theme valid");
}

use pi::error::Error;
use pi::theme::{glob_json, DirEntry, ThemeListing, ThemeRoots};

fn entry(path: &str, is_file: bool, extension: Option<&str>) -> DirEntry {
    DirEntry { path: path.to_string(), is_file, extension: extension.map(str::to_string) }
}

#[test]
fn rejects_invalid_colors() {
    let mut theme = Theme::dark();
    theme.name = "bad".to_string();
    theme.colors.foreground = "red".to_string();
    let err = theme.validate().unwrap_err();
    match err {
        Error::Validation(m) => assert_eq!(m, "Invalid color for colors.foreground: red"),
        other => panic!("expected validation error, got {other:?}"),
    }
    let mut theme = Theme::light();
    theme.ui.cursor = " #12345g ".to_string();
    assert_eq!(theme.validate().unwrap_err().to_string(), "Validation error: Invalid color for ui.cursor: #12345g");
    theme.ui.cursor = "  #ABCdef\n".to_string();
    assert!(theme.validate().is_ok());
    theme.version = "  ".to_string();
    assert_eq!(theme.validate().unwrap_err().to_string(), "Validation error: Theme version is empty");
    theme.name = String::new();
    assert_eq!(theme.validate().unwrap_err().to_string(), "Validation error: Theme name is empty");
    assert!(Theme::validate_color("f", "#12345").is_err());
    assert!(Theme::validate_color("f", "#1234567").is_err());
    assert!(Theme::validate_color("f", "1234567").is_err());
    assert!(Theme::validate_color("f", "#ééé").is_err());
    assert!(Theme::validate_color("f", "#0a1B2c").is_ok());
}

#[test]
fn discover_themes_from_roots() {
    let global = vec![entry("/g/themes/g.json", true, Some("json"))];
    let project = vec![entry("/p/themes/p.json", true, Some("json"))];
    let themes = Theme::discover_themes_with_roots(&global, &project);
    assert_eq!(themes.len(), 2);
}

#[test]
fn discovered_themes_are_the_json_files_in_order() {
    let listing = ThemeListing {
        global: vec![
            entry("/g/themes/z.JSON", true, Some("JSON")),
            entry("/g/themes/dir.json", false, Some("json")),
            entry("/g/themes/readme.md", true, Some("md")),
            entry("/g/themes/noext", true, None),
        ],
        project: vec![
            entry("/a/themes/b.json", true, Some("json")),
            entry("/a/themes/a.json", true, Some("Json")),
            entry("/g/themes/z.JSON", true, Some("json")),
        ],
    };
    assert_eq!(
        Theme::discover_themes(&listing),
        vec!["/a/themes/a.json", "/a/themes/b.json", "/g/themes/z.JSON", "/g/themes/z.JSON"]
    );
    assert_eq!(glob_json(&listing.global), vec!["/g/themes/z.JSON"]);
}

#[test]
fn themes_are_loaded_by_name() {
    let mut broken = Theme::dark();
    broken.name = "solar".to_string();
    broken.colors.accent = "blue".to_string();
    let mut solar = Theme::light();
    solar.name = "Solar".to_string();
    let found = Theme::load_by_name_with_roots("  SOLAR ", vec![Theme::dark(), broken, solar, Theme::light()]).expect("found");
    assert_eq!(found.name, "Solar");
    assert_eq!(found.colors.background, "#ffffff");
    let err = Theme::load_by_name("  ", vec![Theme::dark()]).unwrap_err();
    assert_eq!(err.to_string(), "Validation error: Theme name is empty");
    let err = Theme::load_by_name(" neon ", vec![Theme::dark()]).unwrap_err();
    assert!(matches!(&err, Error::Config(_)));
    assert_eq!(err.to_string(), "Configuration error: Theme not found: neon");
    assert_eq!(Theme::load_by_name("DARK", vec![Theme::light(), Theme::dark()]).expect("dark").name, "dark");
}

#[test]
fn theme_roots_lie_under_the_given_directories() {
    let roots = ThemeRoots::from_cwd("/work", "/home/u/.pi/agent");
    assert_eq!(roots.global_dir, "/home/u/.pi/agent");
    assert_eq!(std::path::Path::new(&roots.project_dir), std::path::Path::new("/work").join(".pi"));
    let (global, project) = roots.theme_dirs();
    assert_eq!(std::path::Path::new(&global), std::path::Path::new("/home/u/.pi/agent").join("themes"));
    assert!(project.ends_with("themes"));
    assert_eq!(
        std::path::Path::new(&project),
        std::path::Path::new("/work").join(".pi").join("themes")
    );
    assert_ne!(global, "/home/u/.pi/agent");
    assert_ne!(project, roots.project_dir);
}

#[test]
fn the_default_themes_have_their_colours() {
    assert_eq!(Theme::dark().name, "dark");
    assert_eq!(Theme::dark().version, "1.0");
    assert_eq!(Theme::dark().colors.accent, "#007acc");
    assert_eq!(Theme::dark().syntax.function, "#dcdcaa");
    assert_eq!(Theme::dark().ui.cursor, "#aeafad");
    assert_eq!(Theme::light().name, "light");
    assert_eq!(Theme::light().colors.error, "#c62828");
    assert_eq!(Theme::light().ui.selection, "#cce7ff");
}

fn theme_text(foreground: &str) -> String {
    format!(
        "{{\n  \"name\": \"test-dark\",\n  \"version\": \"1.0\",\n  \"colors\": {{\n    \
         \"foreground\": \"{foreground}\",\n    \"background\": \"#000000\",\n    \
         \"accent\": \"#123456\",\n    \"success\": \"#00ff00\",\n    \"warning\": \"#ffcc00\",\n    \
         \"error\": \"#ff0000\",\n    \"muted\": \"#888888\"\n  }},\n  \"syntax\": {{\n    \
         \"keyword\": \"#111111\",\n    \"string\": \"#222222\",\n    \"number\": \"#333333\",\n    \
         \"comment\": \"#444444\",\n    \"function\": \"#555555\"\n  }},\n  \"ui\": {{\n    \
         \"border\": \"#666666\",\n    \"selection\": \"#777777\",\n    \"cursor\": \"#888888\"\n  }}\n}}"
    )
}

#[test]
fn load_valid_theme_json() {
    let theme = Theme::from_json(&theme_text("#ffffff")).expect("load theme");
    assert_eq!(theme.name, "test-dark");
    assert_eq!(theme.version, "1.0");
    assert_eq!(theme.colors.foreground, "#ffffff");
    assert_eq!(theme.colors.muted, "#888888");
    assert_eq!(theme.syntax.keyword, "#111111");
    assert_eq!(theme.syntax.function, "#555555");
    assert_eq!(theme.ui.border, "#666666");
    assert_eq!(theme.ui.cursor, "#888888");
}

#[test]
fn rejects_invalid_json() {
    let err = Theme::from_json("{this is not json").unwrap_err();
    match err {
        Error::Json(_) => {}
        other => panic!("expected json error, got {other:?}"),
    }
}

#[test]
fn a_theme_file_must_hold_every_text() {
    let err = Theme::from_json(&theme_text("red")).unwrap_err();
    assert!(matches!(err, Error::Validation(_)));

    let without_cursor = theme_text("#ffffff").replace(",\n    \"cursor\": \"#888888\"", "");
    match Theme::from_json(&without_cursor).unwrap_err() {
        Error::Json(message) => assert_eq!(message, "theme needs the string `ui.cursor`"),
        other => panic!("expected json error, got {other:?}"),
    }
    let odd_name = theme_text("#ffffff").replace("\"test-dark\"", "7");
    match Theme::from_json(&odd_name).unwrap_err() {
        Error::Json(message) => assert_eq!(message, "theme needs the string `name`"),
        other => panic!("expected json error, got {other:?}"),
    }
    match Theme::from_json("[]").unwrap_err() {
        Error::Json(message) => assert_eq!(message, "theme needs the string `name`"),
        other => panic!("expected json error, got {other:?}"),
    }
    match Theme::from_json("{\"name\":\"n\",\"version\":\"1\"}").unwrap_err() {
        Error::Json(message) => assert_eq!(message, "theme needs the string `colors.foreground`"),
        other => panic!("expected json error, got {other:?}"),
    }
}
