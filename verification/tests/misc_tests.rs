use an::commands::link::link_names;
use an::commands::list::{is_installed, AppSource};
use an::commands::sync::count_apps;
use an::commands::update::parse_version;
use an::db::{AppConfig, AppInfo, SourceInfo, SourceType};
use an::errors::AnError;
use an::handlers::flatpak;
use an::model::{BinEntry, BinItem, SystemModel};

fn model() -> SystemModel {
    SystemModel {
        apps_dir: "/home/u/Applications".to_string(),
        bin_dir: "/home/u/.local/bin".to_string(),
        desktop_dir: "/home/u/.local/share/applications".to_string(),
        bin: Vec::new(),
        apps: Vec::new(),
        desktop: Vec::new(),
        packages: Vec::new(),
        bundles: Vec::new(),
        runtime_present: true,
    }
}

#[test]
fn test_parse_app_list_two_columns() {
    let apps = flatpak::parse_app_list("org.gimp.GIMP\tGIMP\ncom.spotify.Client\tSpotify\n");
    assert_eq!(apps.len(), 2);
    assert_eq!(apps[0].id, "org.gimp.GIMP");
    assert_eq!(apps[0].name, "GIMP");
    assert_eq!(apps[1].id, "com.spotify.Client");
    assert_eq!(apps[1].name, "Spotify");
}

#[test]
fn test_parse_app_list_single_column() {
    let apps = flatpak::parse_app_list("org.gimp.GIMP\n\ncom.spotify.Client");
    assert_eq!(apps.len(), 2);
    assert_eq!(apps[0].id, "org.gimp.GIMP");
    assert_eq!(apps[0].name, "org.gimp.GIMP");
}

#[test]
fn test_parse_app_list_empty() {
    assert!(flatpak::parse_app_list("").is_empty());
}

#[test]
fn test_wrapper_script_content() {
    let mut m = model();
    let file = flatpak::create_wrapper(&mut m, "org.gimp.GIMP", "gimp");
    assert_eq!(file.path, "/home/u/.local/bin/gimp");
    assert_eq!(
        file.content,
        "#!/bin/bash\n# AN-generated wrapper for org.gimp.GIMP\nexec flatpak run org.gimp.GIMP \"$@\"\n"
    );
    assert_eq!(m.bin.len(), 1);
    assert_eq!(m.bin[0].name, "gimp");
}

#[test]
fn test_is_owned_wrapper() {
    let owned = "#!/bin/bash\n# AN-generated wrapper for org.gimp.GIMP\nexec flatpak run org.gimp.GIMP \"$@\"\n";
    assert!(flatpak::is_owned_wrapper(owned, "org.gimp.GIMP"));
    assert!(!flatpak::is_owned_wrapper(owned, "com.spotify.Client"));
    assert!(!flatpak::is_owned_wrapper("#!/bin/bash\necho org.gimp.GIMP\n", "org.gimp.GIMP"));
}

#[test]
fn test_wrapper_name_guess() {
    assert_eq!(flatpak::wrapper_name_guess("org.gimp.GIMP"), "gimp");
    assert_eq!(flatpak::wrapper_name_guess("plain"), "plain");
}

#[test]
fn test_flatpak_detect_by_segment() {
    let mut m = model();
    m.bundles.push(flatpak::FlatpakApp {
        id: "org.gimp.GIMP".to_string(),
        name: "GIMP".to_string(),
    });
    assert_eq!(flatpak::detect(&m, "gimp"), Some("org.gimp.GIMP".to_string()));
    assert_eq!(flatpak::detect(&m, "ORG.GIMP.GIMP"), Some("org.gimp.GIMP".to_string()));
    assert_eq!(flatpak::detect(&m, "inkscape"), None);
}

#[test]
fn test_is_installed_priority() {
    let mut m = model();
    m.bin.push(BinItem {
        name: "firefox".to_string(),
        entry: BinEntry::Symlink {
            target: "/home/u/Applications/Firefox.AppImage".to_string(),
        },
    });
    m.packages.push("firefox".to_string());
    let found = is_installed(&m, "firefox").unwrap();
    assert!(matches!(found.source, AppSource::AppImage));
    assert_eq!(
        found.path,
        Some("/home/u/Applications/firefox.AppImage".to_string())
    );
}

#[test]
fn test_is_installed_none() {
    let m = model();
    assert!(is_installed(&m, "nothing").is_none());
}

#[test]
fn test_app_source_display() {
    assert_eq!(AppSource::AppImage.label(), "AppImage");
    assert_eq!(AppSource::Flatpak.label(), "Flatpak");
    assert_eq!(AppSource::Deb.label(), "Deb");
}

#[test]
fn test_error_display_file_not_found() {
    let err = AnError::FileNotFound { path: "/path/to/file".to_string() };
    assert_eq!(err.message(), "E001: ファイルが見つかりません: /path/to/file");
}

#[test]
fn test_error_display_unknown_file_type() {
    let err = AnError::UnknownFileType { extension: "xyz".to_string() };
    assert_eq!(err.message(), "E002: 不明なファイル形式です: xyz");
}

#[test]
fn test_error_display_app_not_in_db() {
    let err = AnError::AppNotInDatabase { name: "unknownapp".to_string() };
    assert_eq!(err.message(), "E003: アプリDBにエントリが見つかりません: unknownapp");
}

#[test]
fn test_count_apps_nonexistent() {
    // a directory that does not exist yields an empty listing
    let names: Vec<String> = Vec::new();
    assert_eq!(count_apps(&names), 0);
}

#[test]
fn test_count_apps_mixed() {
    let names = vec![
        "firefox.toml".to_string(),
        "notes.txt".to_string(),
        "gimp.toml".to_string(),
        "README".to_string(),
    ];
    assert_eq!(count_apps(&names), 2);
}

#[test]
fn test_parse_version_strips_prefix() {
    assert_eq!(parse_version("v0.1.0"), "0.1.0");
    assert_eq!(parse_version("0.1.0"), "0.1.0");
    assert_eq!(parse_version(""), "");
}

#[test]
fn test_link_plan_skips_conflicts() {
    let apps = vec![
        flatpak::FlatpakApp { id: "org.gimp.GIMP".to_string(), name: "GIMP".to_string() },
        flatpak::FlatpakApp {
            id: "com.spotify.Client".to_string(),
            name: "Spotify".to_string(),
        },
    ];
    let names = link_names(&apps);
    assert_eq!(names, vec!["gimp".to_string(), "spotify".to_string()]);
    let jobs = an::commands::link::run(&apps, &vec![true, false]);
    assert_eq!(jobs.len(), 1);
    assert_eq!(jobs[0].id, "com.spotify.Client");
    assert_eq!(jobs[0].name, "spotify");
}

#[test]
fn test_search_apps_case_insensitive() {
    let entry = |name: &str, desc: &str| AppConfig {
        app: AppInfo {
            name: name.to_string(),
            description: desc.to_string(),
            homepage: None,
        },
        source: SourceInfo {
            source_type: SourceType::Deb,
            url: "https://example.com/a.deb".to_string(),
            flatpak_id: None,
            architecture: vec!["x86_64".to_string()],
        },
        metadata: None,
    };
    let apps = vec![
        entry("firefox", "Web browser"),
        entry("gimp", "Image editor"),
        entry("vim", "Text editor"),
    ];
    let hits = an::commands::search::search_apps(apps, "EDITOR");
    assert_eq!(hits.len(), 2);
    assert_eq!(hits[0].app.name, "gimp");
    assert_eq!(hits[1].app.name, "vim");
}

#[test]
fn test_sort_by_name() {
    let entry = |name: &str| AppConfig {
        app: AppInfo {
            name: name.to_string(),
            description: "x".to_string(),
            homepage: None,
        },
        source: SourceInfo {
            source_type: SourceType::Deb,
            url: "https://example.com/a.deb".to_string(),
            flatpak_id: None,
            architecture: vec!["x86_64".to_string()],
        },
        metadata: None,
    };
    let sorted = an::commands::search::sort_by_name(vec![
        entry("vim"),
        entry("alpha"),
        entry("gimp"),
    ]);
    let names: Vec<&str> = sorted.iter().map(|c| c.app.name.as_str()).collect();
    assert_eq!(names, vec!["alpha", "gimp", "vim"]);
}

#[test]
fn test_deb_outcomes() {
    assert!(an::handlers::deb::install_outcome(true, false, "").is_ok());
    assert!(an::handlers::deb::install_outcome(false, true, "").is_ok());
    match an::handlers::deb::install_outcome(false, false, "broken") {
        Err(AnError::DpkgError { message }) => assert_eq!(message, "broken"),
        _ => panic!("Expected DpkgError"),
    }
    assert!(an::handlers::deb::remove_outcome(true, "").is_ok());
    match an::handlers::deb::remove_outcome(false, "held") {
        Err(AnError::AptPurgeError { message }) => assert_eq!(message, "held"),
        _ => panic!("Expected AptPurgeError"),
    }
}

#[test]
fn test_deb_detect() {
    let mut m = model();
    m.packages.push("vim".to_string());
    assert_eq!(an::handlers::deb::detect(&m, "vim"), Some("vim".to_string()));
    assert_eq!(an::handlers::deb::detect(&m, "emacs"), None);
}

#[test]
fn test_dir_exists() {
    assert!(an::utils::fs::dir_exists("/"));
    assert!(!an::utils::fs::dir_exists("/this/path/does/not/exist"));
}

#[test]
fn test_file_exists() {
    // a directory is not a regular file
    assert!(!an::utils::fs::file_exists("/"));
    assert!(!an::utils::fs::file_exists("/this/path/does/not/exist"));
}

#[test]
fn test_is_installed_package_before_bundle() {
    // a name that is both an installed package and an installed
    // bundle is reported as a native package: the package probe runs
    // before the bundle probe
    let mut m = model();
    m.packages.push("gimp".to_string());
    m.bundles.push(flatpak::FlatpakApp {
        id: "org.gimp.GIMP".to_string(),
        name: "GIMP".to_string(),
    });
    let found = is_installed(&m, "gimp").unwrap();
    assert!(matches!(found.source, AppSource::Deb));
    assert!(found.path.is_none());
}

#[test]
fn test_should_update_newer() {
    let triple = |major, minor, patch| an::commands::update::VersionTriple {
        major,
        minor,
        patch,
    };
    assert!(an::commands::update::should_update(triple(0, 1, 0), triple(0, 2, 0)));
}

#[test]
fn test_should_update_same() {
    let triple = |major, minor, patch| an::commands::update::VersionTriple {
        major,
        minor,
        patch,
    };
    assert!(!an::commands::update::should_update(triple(0, 1, 0), triple(0, 1, 0)));
}

#[test]
fn test_should_update_older() {
    let triple = |major, minor, patch| an::commands::update::VersionTriple {
        major,
        minor,
        patch,
    };
    assert!(!an::commands::update::should_update(triple(0, 2, 0), triple(0, 1, 0)));
}

#[test]
fn test_should_update_major() {
    let triple = |major, minor, patch| an::commands::update::VersionTriple {
        major,
        minor,
        patch,
    };
    assert!(an::commands::update::should_update(triple(0, 9, 9), triple(1, 0, 0)));
}

#[test]
fn test_should_update_patch() {
    let triple = |major, minor, patch| an::commands::update::VersionTriple {
        major,
        minor,
        patch,
    };
    assert!(an::commands::update::should_update(triple(1, 0, 0), triple(1, 0, 1)));
}
