use an::commands::install::{
    run_with_options, step, InstallAction, InstallEvent, InstallFlow, InstallOptions,
};
use an::commands::remove;
use an::db::{AppConfig, AppInfo, Metadata, SourceInfo, SourceType};
use an::errors::AnError;
use an::handlers::flatpak::FlatpakApp;
use an::model::{BinEntry, BinItem, SystemModel};

fn model() -> SystemModel {
    SystemModel {
        apps_dir: "/home/u/Applications".to_string(),
        bin_dir: "/home/u/.local/bin".to_string(),
        desktop_dir: "/home/u/.local/share/applications".to_string(),
        bin: Vec::new(),
        apps: Vec::new(),
        desktop: Vec::new(),
        packages: Vec::new(),
        bundles: Vec::new(),
        runtime_present: true,
    }
}

fn firefox_entry() -> AppConfig {
    AppConfig {
        app: AppInfo {
            name: "firefox".to_string(),
            description: "Web browser".to_string(),
            homepage: None,
        },
        source: SourceInfo {
            source_type: SourceType::AppImage,
            url: "https://x/firefox-{version}.AppImage".to_string(),
            flatpak_id: None,
            architecture: vec!["x86_64".to_string()],
        },
        metadata: Some(Metadata {
            categories: None,
            desktop_entry: None,
            version: Some("120.0".to_string()),
            maintainer: None,
        }),
    }
}

#[test]
fn test_install_flow_remote_end_to_end() {
    let (flow, action) = run_with_options("firefox", "x86_64", InstallOptions::default());
    match &action {
        InstallAction::ProbePath { path } => assert_eq!(path, "firefox"),
        _ => panic!("Expected a path probe"),
    }
    let (flow, action) = step(flow, InstallEvent::Exists { yes: false });
    match &action {
        Some(InstallAction::LookupRegistry { name }) => assert_eq!(name, "firefox"),
        _ => panic!("Expected a registry lookup"),
    }
    let (flow, action) = step(
        flow,
        InstallEvent::Registry { entry: Some(firefox_entry()) },
    );
    assert!(matches!(action, Some(InstallAction::AskConfirm)));
    let (flow, action) = step(flow, InstallEvent::Confirmed { yes: true });
    match &action {
        Some(InstallAction::Download { url, filename }) => {
            assert_eq!(url, "https://x/firefox-120.0.AppImage");
            assert_eq!(filename, "firefox.AppImage");
        }
        _ => panic!("Expected a download"),
    }
    let (flow, action) = step(
        flow,
        InstallEvent::Downloaded { ok: true, path: "/tmp/dl/firefox.AppImage".to_string() },
    );
    assert!(matches!(flow, InstallFlow::Done));
    match action {
        Some(InstallAction::InstallPortable { path, options }) => {
            assert_eq!(path, "/tmp/dl/firefox.AppImage");
            assert!(options.remove_source);
            assert!(!options.desktop_entry);
        }
        _ => panic!("Expected a portable install"),
    }
}

#[test]
fn test_install_flow_decline_cancels() {
    let (flow, _) = run_with_options("firefox", "x86_64", InstallOptions::default());
    let (flow, _) = step(flow, InstallEvent::Exists { yes: false });
    let (flow, _) = step(flow, InstallEvent::Registry { entry: Some(firefox_entry()) });
    let (flow, action) = step(flow, InstallEvent::Confirmed { yes: false });
    assert!(matches!(flow, InstallFlow::Cancelled));
    assert!(action.is_none());
}

#[test]
fn test_install_flow_not_in_registry() {
    let (flow, _) = run_with_options("ghost", "x86_64", InstallOptions::default());
    let (flow, _) = step(flow, InstallEvent::Exists { yes: false });
    let (flow, action) = step(flow, InstallEvent::Registry { entry: None });
    match flow {
        InstallFlow::Failed { error: AnError::AppNotInDatabase { name } } => {
            assert_eq!(name, "ghost");
        }
        _ => panic!("Expected AppNotInDatabase"),
    }
    assert!(action.is_none());
}

#[test]
fn test_install_flow_local_unknown_extension() {
    let (flow, _) = run_with_options("notes.txt", "x86_64", InstallOptions::default());
    let (flow, _) = step(flow, InstallEvent::Exists { yes: true });
    match flow {
        InstallFlow::Failed { error: AnError::UnknownFileType { extension } } => {
            assert_eq!(extension, "txt");
        }
        _ => panic!("Expected UnknownFileType"),
    }
}

#[test]
fn test_install_flow_local_deb_repair() {
    let (flow, _) = run_with_options("pkg.deb", "x86_64", InstallOptions::default());
    let (flow, action) = step(flow, InstallEvent::Exists { yes: true });
    match &action {
        Some(InstallAction::RunInstaller { path }) => assert_eq!(path, "pkg.deb"),
        _ => panic!("Expected the installer run"),
    }
    let (flow, action) = step(
        flow,
        InstallEvent::ToolResult { ok: false, stderr: "missing deps".to_string() },
    );
    assert!(matches!(action, Some(InstallAction::RunRepair)));
    let (flow, action) = step(
        flow,
        InstallEvent::ToolResult { ok: false, stderr: "still broken".to_string() },
    );
    match flow {
        InstallFlow::Failed { error: AnError::DpkgError { message } } => {
            assert_eq!(message, "still broken");
        }
        _ => panic!("Expected DpkgError"),
    }
    assert!(action.is_none());
}

#[test]
fn test_install_flow_bundle_conflict_skips_alias() {
    let mut entry = firefox_entry();
    entry.app.name = "spotify".to_string();
    entry.source.source_type = SourceType::Flatpak;
    entry.source.flatpak_id = Some("com.spotify.Client".to_string());
    let (flow, _) = run_with_options("spotify", "x86_64", InstallOptions::default());
    let (flow, _) = step(flow, InstallEvent::Exists { yes: false });
    let (flow, action) = step(flow, InstallEvent::Registry { entry: Some(entry) });
    assert!(matches!(action, Some(InstallAction::CheckRuntime)));
    let (flow, _) = step(flow, InstallEvent::RuntimePresent { yes: true });
    let (flow, action) = step(flow, InstallEvent::Confirmed { yes: true });
    match &action {
        Some(InstallAction::RunBundleInstall { id }) => assert_eq!(id, "com.spotify.Client"),
        _ => panic!("Expected the bundle install"),
    }
    let (flow, action) = step(
        flow,
        InstallEvent::ToolResult { ok: true, stderr: String::new() },
    );
    match &action {
        Some(InstallAction::CheckConflict { name }) => assert_eq!(name, "spotify"),
        _ => panic!("Expected the conflict check"),
    }
    // a name collision skips the alias without erroring
    let (flow, action) = step(flow, InstallEvent::Conflict { yes: true });
    assert!(matches!(flow, InstallFlow::Done));
    assert!(action.is_none());
}

#[test]
fn test_install_flow_bundle_no_conflict_creates_alias() {
    let mut entry = firefox_entry();
    entry.app.name = "spotify".to_string();
    entry.source.source_type = SourceType::Flatpak;
    entry.source.flatpak_id = Some("com.spotify.Client".to_string());
    let (flow, _) = run_with_options("spotify", "x86_64", InstallOptions::default());
    let (flow, _) = step(flow, InstallEvent::Exists { yes: false });
    let (flow, _) = step(flow, InstallEvent::Registry { entry: Some(entry) });
    let (flow, _) = step(flow, InstallEvent::RuntimePresent { yes: true });
    let (flow, _) = step(flow, InstallEvent::Confirmed { yes: true });
    let (flow, _) = step(flow, InstallEvent::ToolResult { ok: true, stderr: String::new() });
    let (flow, action) = step(flow, InstallEvent::Conflict { yes: false });
    assert!(matches!(flow, InstallFlow::Done));
    match action {
        Some(InstallAction::CreateWrapper { id, name }) => {
            assert_eq!(id, "com.spotify.Client");
            assert_eq!(name, "spotify");
        }
        _ => panic!("Expected the wrapper creation"),
    }
}

#[test]
fn test_install_flow_runtime_missing() {
    let mut entry = firefox_entry();
    entry.source.source_type = SourceType::Flatpak;
    entry.source.flatpak_id = Some("org.gimp.GIMP".to_string());
    let (flow, _) = run_with_options("gimp", "x86_64", InstallOptions::default());
    let (flow, _) = step(flow, InstallEvent::Exists { yes: false });
    let (flow, _) = step(flow, InstallEvent::Registry { entry: Some(entry) });
    let (flow, _) = step(flow, InstallEvent::RuntimePresent { yes: false });
    assert!(matches!(
        flow,
        InstallFlow::Failed { error: AnError::FlatpakNotInstalled }
    ));
}

#[test]
fn test_install_flow_bundle_tool_failure() {
    let mut entry = firefox_entry();
    entry.source.source_type = SourceType::Flatpak;
    entry.source.flatpak_id = Some("org.gimp.GIMP".to_string());
    let (flow, _) = run_with_options("gimp", "x86_64", InstallOptions::default());
    let (flow, _) = step(flow, InstallEvent::Exists { yes: false });
    let (flow, _) = step(flow, InstallEvent::Registry { entry: Some(entry) });
    let (flow, _) = step(flow, InstallEvent::RuntimePresent { yes: true });
    let (flow, _) = step(flow, InstallEvent::Confirmed { yes: true });
    let (flow, _) = step(
        flow,
        InstallEvent::ToolResult { ok: false, stderr: "no remote".to_string() },
    );
    match flow {
        InstallFlow::Failed { error: AnError::FlatpakInstallError { message } } => {
            assert_eq!(message, "no remote");
        }
        _ => panic!("Expected FlatpakInstallError"),
    }
}

#[test]
fn test_install_flow_download_failure() {
    let (flow, _) = run_with_options("firefox", "x86_64", InstallOptions::default());
    let (flow, _) = step(flow, InstallEvent::Exists { yes: false });
    let (flow, _) = step(flow, InstallEvent::Registry { entry: Some(firefox_entry()) });
    let (flow, _) = step(flow, InstallEvent::Confirmed { yes: true });
    let (flow, _) = step(
        flow,
        InstallEvent::Downloaded { ok: false, path: String::new() },
    );
    match flow {
        InstallFlow::Failed { error: AnError::DownloadFailed { url } } => {
            assert_eq!(url, "https://x/firefox-120.0.AppImage");
        }
        _ => panic!("Expected DownloadFailed"),
    }
}

#[test]
fn test_remove_flow_not_installed() {
    let mut m = model();
    let (flow, action) = remove::run(&mut m, "ghost");
    match flow {
        remove::RemoveFlow::Failed { error: AnError::AppNotInstalled { name } } => {
            assert_eq!(name, "ghost");
        }
        _ => panic!("Expected AppNotInstalled"),
    }
    assert!(action.is_none());
}

#[test]
fn test_remove_flow_probe_priority() {
    // both a managed symlink and a native package of the same name:
    // the portable binary wins
    let mut m = model();
    m.bin.push(BinItem {
        name: "firefox".to_string(),
        entry: BinEntry::Symlink {
            target: "/home/u/Applications/Firefox.AppImage".to_string(),
        },
    });
    m.apps.push("Firefox.AppImage".to_string());
    m.packages.push("firefox".to_string());
    let detection = remove::detect_type(&m, "firefox").unwrap();
    assert_eq!(detection.install_type, remove::InstallType::AppImage);
    let (flow, action) = remove::run(&mut m, "firefox");
    assert!(matches!(flow, remove::RemoveFlow::Done));
    assert!(matches!(
        action,
        Some(remove::RemoveAction::ExecuteRemovePlan { .. })
    ));
}

#[test]
fn test_remove_flow_deb() {
    let mut m = model();
    m.packages.push("vim".to_string());
    let (flow, action) = remove::run(&mut m, "vim");
    match &action {
        Some(remove::RemoveAction::RunPurge { package }) => assert_eq!(package, "vim"),
        _ => panic!("Expected the purge run"),
    }
    let (flow, action) = remove::step(
        &m,
        flow,
        remove::RemoveEvent::ToolResult { ok: true, stderr: String::new() },
    );
    assert!(matches!(flow, remove::RemoveFlow::Done));
    assert!(matches!(action, Some(remove::RemoveAction::RunAutoremove)));
}

#[test]
fn test_remove_flow_deb_failure() {
    let mut m = model();
    m.packages.push("vim".to_string());
    let (flow, _) = remove::run(&mut m, "vim");
    let (flow, _) = remove::step(
        &m,
        flow,
        remove::RemoveEvent::ToolResult { ok: false, stderr: "locked".to_string() },
    );
    match flow {
        remove::RemoveFlow::Failed { error: AnError::AptPurgeError { message } } => {
            assert_eq!(message, "locked");
        }
        _ => panic!("Expected AptPurgeError"),
    }
}

#[test]
fn test_remove_flow_bundle_keeps_foreign_wrapper() {
    let mut m = model();
    m.bundles.push(FlatpakApp {
        id: "org.example.Tool".to_string(),
        name: "Tool".to_string(),
    });
    let (flow, action) = remove::run(&mut m, "tool");
    match &action {
        Some(remove::RemoveAction::RunUninstall { id }) => {
            assert_eq!(id, "org.example.Tool");
        }
        _ => panic!("Expected the uninstall run"),
    }
    let (flow, action) = remove::step(
        &m,
        flow,
        remove::RemoveEvent::ToolResult { ok: true, stderr: String::new() },
    );
    match &action {
        Some(remove::RemoveAction::ReadWrapper { path }) => {
            assert_eq!(path, "/home/u/.local/bin/tool");
        }
        _ => panic!("Expected the wrapper read"),
    }
    // a script of the guessed name that this tool did not write stays
    let (flow, action) = remove::step(
        &m,
        flow,
        remove::RemoveEvent::WrapperContent {
            exists: true,
            content: "#!/bin/bash\necho hello\n".to_string(),
        },
    );
    assert!(matches!(flow, remove::RemoveFlow::Done));
    assert!(action.is_none());
}

#[test]
fn test_remove_flow_bundle_deletes_owned_wrapper() {
    let mut m = model();
    m.bundles.push(FlatpakApp {
        id: "org.gimp.GIMP".to_string(),
        name: "GIMP".to_string(),
    });
    let (flow, _) = remove::run(&mut m, "gimp");
    let (flow, _) = remove::step(
        &m,
        flow,
        remove::RemoveEvent::ToolResult { ok: true, stderr: String::new() },
    );
    let script = "#!/bin/bash\n# AN-generated wrapper for org.gimp.GIMP\n\
                  exec flatpak run org.gimp.GIMP \"$@\"\n";
    let (flow, action) = remove::step(
        &m,
        flow,
        remove::RemoveEvent::WrapperContent { exists: true, content: script.to_string() },
    );
    assert!(matches!(flow, remove::RemoveFlow::Done));
    match action {
        Some(remove::RemoveAction::DeleteWrapper { path }) => {
            assert_eq!(path, "/home/u/.local/bin/gimp");
        }
        _ => panic!("Expected the wrapper deletion"),
    }
}

#[test]
fn test_remove_flow_bundle_uninstall_failure() {
    let mut m = model();
    m.bundles.push(FlatpakApp {
        id: "org.gimp.GIMP".to_string(),
        name: "GIMP".to_string(),
    });
    let (flow, _) = remove::run(&mut m, "gimp");
    let (flow, _) = remove::step(
        &m,
        flow,
        remove::RemoveEvent::ToolResult { ok: false, stderr: "busy".to_string() },
    );
    match flow {
        remove::RemoveFlow::Failed { error: AnError::FlatpakUninstallError { message } } => {
            assert_eq!(message, "busy");
        }
        _ => panic!("Expected FlatpakUninstallError"),
    }
}

#[test]
fn test_install_type_variants() {
    assert_eq!(remove::InstallType::AppImage, remove::InstallType::AppImage);
    assert_eq!(remove::InstallType::Deb, remove::InstallType::Deb);
    assert_eq!(remove::InstallType::Flatpak, remove::InstallType::Flatpak);
    assert_ne!(remove::InstallType::AppImage, remove::InstallType::Deb);
}
