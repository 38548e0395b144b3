use an::db::{
    expand_url, filter_by_architecture, find_by_name, validate, AppConfig, AppInfo, Metadata,
    SourceInfo, SourceType,
};

fn sample_config() -> AppConfig {
    AppConfig {
        app: AppInfo {
            name: "testapp".to_string(),
            description: "Test Application".to_string(),
            homepage: Some("https://example.com".to_string()),
        },
        source: SourceInfo {
            source_type: SourceType::AppImage,
            url: "https://example.com/app-{version}-{arch}.AppImage".to_string(),
            flatpak_id: None,
            architecture: vec!["x86_64".to_string()],
        },
        metadata: Some(Metadata {
            categories: Some(vec!["Utility".to_string()]),
            desktop_entry: Some(true),
            version: Some("1.0.0".to_string()),
            maintainer: None,
        }),
    }
}

#[test]
fn test_validate_valid_config() {
    let config = sample_config();
    assert!(validate(&config).is_ok());
}

#[test]
fn test_validate_empty_name() {
    let mut config = sample_config();
    config.app.name = String::new();
    assert!(validate(&config).is_err());
}

#[test]
fn test_validate_empty_description() {
    let mut config = sample_config();
    config.app.description = String::new();
    assert!(validate(&config).is_err());
}

#[test]
fn test_validate_invalid_url() {
    let mut config = sample_config();
    config.source.url = "not-a-url".to_string();
    assert!(validate(&config).is_err());
}

#[test]
fn test_validate_empty_architecture() {
    let mut config = sample_config();
    config.source.architecture = vec![];
    assert!(validate(&config).is_err());
}

#[test]
fn test_validate_flatpak_needs_id() {
    let mut config = sample_config();
    config.source.source_type = SourceType::Flatpak;
    config.source.flatpak_id = None;
    match validate(&config) {
        Err(an::errors::AnError::ValidationError { message }) => {
            assert_eq!(message, "flatpak_id is required for Flatpak apps");
        }
        _ => panic!("Expected ValidationError"),
    }
}

#[test]
fn test_validate_error_messages() {
    let mut config = sample_config();
    config.app.name = String::new();
    match validate(&config) {
        Err(an::errors::AnError::ValidationError { message }) => {
            assert_eq!(message, "name is required");
        }
        _ => panic!("Expected ValidationError"),
    }
}

#[test]
fn test_expand_url() {
    let config = sample_config();
    let expanded = expand_url(&config.source.url.clone(), &config, "x86_64");
    assert!(expanded.contains("1.0.0"));
    assert!(!expanded.contains("{version}"));
}

#[test]
fn test_expand_url_exact() {
    let mut config = sample_config();
    config.app.name = "firefox".to_string();
    config.source.url = "https://x/firefox-{version}.AppImage".to_string();
    if let Some(meta) = &mut config.metadata {
        meta.version = Some("120.0".to_string());
    }
    let expanded = expand_url(&config.source.url.clone(), &config, "x86_64");
    assert_eq!(expanded, "https://x/firefox-120.0.AppImage");
}

#[test]
fn test_expand_url_arch() {
    let config = sample_config();
    let expanded = expand_url("https://x/app-{arch}.AppImage", &config, "aarch64");
    assert_eq!(expanded, "https://x/app-aarch64.AppImage");
}

#[test]
fn test_expand_url_without_version_metadata() {
    let mut config = sample_config();
    config.metadata = None;
    let expanded = expand_url("https://x/app-{version}.AppImage", &config, "x86_64");
    assert_eq!(expanded, "https://x/app-{version}.AppImage");
}

#[test]
fn test_find_by_name_first_match() {
    let mut a = sample_config();
    a.app.name = "alpha".to_string();
    let mut b = sample_config();
    b.app.name = "beta".to_string();
    b.app.description = "Second".to_string();
    let found = find_by_name(vec![a, b], "beta").unwrap();
    assert_eq!(found.app.name, "beta");
    assert_eq!(found.app.description, "Second");
}

#[test]
fn test_find_by_name_missing() {
    let a = sample_config();
    assert!(find_by_name(vec![a], "missing").is_none());
}

#[test]
fn test_filter_by_architecture_keeps_matching() {
    let mut a = sample_config();
    a.app.name = "alpha".to_string();
    let mut b = sample_config();
    b.app.name = "beta".to_string();
    b.source.architecture = vec!["aarch64".to_string()];
    let kept = filter_by_architecture(vec![a, b], "x86_64");
    assert_eq!(kept.len(), 1);
    assert_eq!(kept[0].app.name, "alpha");
}
