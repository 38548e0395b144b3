use an::handlers::appimage;
use an::model::{BinEntry, BinItem, SystemModel};

fn empty_model() -> SystemModel {
    SystemModel {
        apps_dir: "/home/u/Applications".to_string(),
        bin_dir: "/home/u/.local/bin".to_string(),
        desktop_dir: "/home/u/.local/share/applications".to_string(),
        bin: Vec::new(),
        apps: Vec::new(),
        desktop: Vec::new(),
        packages: Vec::new(),
        bundles: Vec::new(),
        runtime_present: false,
    }
}

#[test]
fn test_install_plan_paths() {
    let mut m = empty_model();
    let plan = appimage::install_with_options(
        &mut m,
        "/tmp/Firefox-123.0.AppImage",
        true,
        appimage::InstallOptions::default(),
    )
    .unwrap();
    assert_eq!(plan.app_name, "firefox");
    assert_eq!(plan.file_name, "Firefox-123.0.AppImage");
    assert_eq!(plan.dest_path, "/home/u/Applications/Firefox-123.0.AppImage");
    assert_eq!(plan.link_path, "/home/u/.local/bin/firefox");
    assert!(!plan.remove_source);
    assert!(plan.desktop_file.is_none());
}

#[test]
fn test_install_missing_artifact_fails() {
    let mut m = empty_model();
    match appimage::install_with_options(
        &mut m,
        "/tmp/gone.AppImage",
        false,
        appimage::InstallOptions::default(),
    ) {
        Err(an::errors::AnError::FileNotFound { path }) => {
            assert_eq!(path, "/tmp/gone.AppImage");
        }
        _ => panic!("Expected FileNotFound"),
    }
    assert!(m.bin.is_empty());
}

#[test]
fn test_install_then_detect_round_trip() {
    let mut m = empty_model();
    appimage::install_with_options(
        &mut m,
        "/tmp/Firefox-123.0.AppImage",
        true,
        appimage::InstallOptions::default(),
    )
    .unwrap();
    assert_eq!(appimage::detect(&m, "firefox"), Some("firefox".to_string()));
    appimage::remove(&mut m, "firefox").unwrap();
    assert_eq!(appimage::detect(&m, "firefox"), None);
}

#[test]
fn test_remove_not_installed() {
    let mut m = empty_model();
    match appimage::remove(&mut m, "nothing") {
        Err(an::errors::AnError::AppNotInstalled { name }) => {
            assert_eq!(name, "nothing");
        }
        _ => panic!("Expected AppNotInstalled"),
    }
}

#[test]
fn test_remove_plan_deletes_everything() {
    let mut m = empty_model();
    appimage::install_with_options(
        &mut m,
        "/tmp/Firefox.AppImage",
        true,
        appimage::InstallOptions {
            name: None,
            desktop_entry: true,
            remove_source: false,
        },
    )
    .unwrap();
    let plan = appimage::remove(&mut m, "firefox").unwrap();
    assert_eq!(plan.link_path, "/home/u/.local/bin/firefox");
    assert_eq!(plan.target_path, "/home/u/Applications/Firefox.AppImage");
    assert_eq!(plan.desktop_path, "/home/u/.local/share/applications/firefox.desktop");
    assert!(m.apps.is_empty());
    assert!(m.desktop.is_empty());
    assert!(m.bin.is_empty());
}

#[test]
fn test_detect_ignores_foreign_symlink() {
    let mut m = empty_model();
    m.bin.push(BinItem {
        name: "firefox".to_string(),
        entry: BinEntry::Symlink { target: "/opt/elsewhere/firefox".to_string() },
    });
    assert_eq!(appimage::detect(&m, "firefox"), None);
}

#[test]
fn test_list_installed_sorted_after_installs() {
    let mut m = empty_model();
    appimage::install_with_options(
        &mut m,
        "/tmp/Zulu.AppImage",
        true,
        appimage::InstallOptions::default(),
    )
    .unwrap();
    appimage::install_with_options(
        &mut m,
        "/tmp/Alpha.AppImage",
        true,
        appimage::InstallOptions::default(),
    )
    .unwrap();
    appimage::install_with_options(
        &mut m,
        "/tmp/Mango.AppImage",
        true,
        appimage::InstallOptions::default(),
    )
    .unwrap();
    let listed = appimage::list_installed(&m);
    assert_eq!(listed, vec!["alpha".to_string(), "mango".to_string(), "zulu".to_string()]);
}

#[test]
fn test_overwrite_leaves_one_symlink() {
    let mut m = empty_model();
    appimage::install_with_options(
        &mut m,
        "/tmp/Firefox-122.0.AppImage",
        true,
        appimage::InstallOptions::default(),
    )
    .unwrap();
    let plan = appimage::install_with_options(
        &mut m,
        "/tmp/Firefox-123.0.AppImage",
        true,
        appimage::InstallOptions::default(),
    )
    .unwrap();
    assert_eq!(m.bin.len(), 1);
    match &m.bin[0].entry {
        BinEntry::Symlink { target } => {
            assert_eq!(target, &plan.dest_path);
            assert_eq!(target, "/home/u/Applications/Firefox-123.0.AppImage");
        }
        _ => panic!("Expected a symlink entry"),
    }
    assert_eq!(appimage::list_installed(&m).len(), 1);
}

#[test]
fn test_desktop_entry_content() {
    let mut m = empty_model();
    let plan = appimage::install_with_options(
        &mut m,
        "/tmp/Some_Cool_App-2.0.AppImage",
        true,
        appimage::InstallOptions {
            name: None,
            desktop_entry: true,
            remove_source: false,
        },
    )
    .unwrap();
    let desktop = plan.desktop_file.unwrap();
    assert_eq!(
        desktop.path,
        "/home/u/.local/share/applications/some-cool-app.desktop"
    );
    let expected = "[Desktop Entry]\nType=Application\nName=Some Cool App\n\
                    Exec=/home/u/Applications/Some_Cool_App-2.0.AppImage\n\
                    Terminal=false\nCategories=Application;\nComment=Installed via AN\n";
    assert_eq!(desktop.content, expected);
}

#[test]
fn test_custom_name_wins() {
    let mut m = empty_model();
    let plan = appimage::install_with_options(
        &mut m,
        "/tmp/Firefox-123.0.AppImage",
        true,
        appimage::InstallOptions {
            name: Some("ff".to_string()),
            desktop_entry: false,
            remove_source: true,
        },
    )
    .unwrap();
    assert_eq!(plan.app_name, "ff");
    assert!(plan.remove_source);
    assert_eq!(plan.link_path, "/home/u/.local/bin/ff");
}

#[test]
fn appimage_test_bin_dir() {
    let dir = appimage::bin_dir("/home/u");
    assert!(dir.ends_with(".local/bin"));
}

#[test]
fn test_apps_dir() {
    let dir = appimage::apps_dir("/home/u");
    assert!(dir.ends_with("Applications"));
}

#[test]
fn test_desktop_dir() {
    let dir = appimage::desktop_dir("/home/u/.local/share");
    assert!(dir.contains("applications"));
}
