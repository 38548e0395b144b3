use an::commands::link::normalize_name;
use an::handlers::appimage::extract_app_name;

#[test]
fn test_extract_app_name_simple() {
    assert_eq!(extract_app_name("/tmp/Firefox.AppImage"), "firefox");
}

#[test]
fn test_extract_app_name_with_version() {
    assert_eq!(extract_app_name("/tmp/Firefox-123.0.AppImage"), "firefox");
}

#[test]
fn test_extract_app_name_complex() {
    assert_eq!(extract_app_name("/tmp/Obsidian-1.5.3-x86_64.AppImage"), "obsidian");
}

#[test]
fn test_extract_app_name_underscore() {
    assert_eq!(extract_app_name("/tmp/Some_Cool_App-2.0.AppImage"), "some-cool-app");
}

#[test]
fn test_extract_app_name_keepassxc() {
    assert_eq!(extract_app_name("/tmp/KeePassXC-2.7.6-x86_64.AppImage"), "keepassxc");
}

#[test]
fn test_extract_app_name_no_stem() {
    assert_eq!(extract_app_name(""), "app");
}

#[test]
fn test_extract_app_name_bare_file() {
    assert_eq!(extract_app_name("KeePassXC-2.7.6-x86_64.AppImage"), "keepassxc");
}

#[test]
fn test_normalize_name_gimp() {
    assert_eq!(normalize_name("org.gimp.GIMP"), "gimp");
}

#[test]
fn test_normalize_name_firefox() {
    assert_eq!(normalize_name("org.mozilla.firefox"), "firefox");
}

#[test]
fn test_normalize_name_spotify() {
    assert_eq!(normalize_name("com.spotify.Client"), "spotify");
}

#[test]
fn test_normalize_name_simple() {
    assert_eq!(normalize_name("SimpleApp"), "simple");
}

#[test]
fn test_normalize_name_with_desktop_suffix() {
    assert_eq!(normalize_name("org.example.MyAppDesktop"), "myapp");
}

#[test]
fn test_normalize_name_trailing_hyphen() {
    assert_eq!(normalize_name("org.example.App-"), "app");
}

#[test]
fn test_extract_app_name_all_tokens_dropped() {
    // the stem reduces to nothing, so the fixed fallback name is used
    assert_eq!(extract_app_name("-5.AppImage"), "app");
}

#[test]
fn test_normalize_name_empty_last_segment() {
    assert_eq!(normalize_name("x."), "app");
}

#[test]
fn test_normalize_name_bare_suffix_segment() {
    assert_eq!(normalize_name(".client"), "app");
}
