use an::commands::install::{detect_file_type, FileType, InstallOptions};
use an::errors::AnError;

#[test]
fn test_detect_file_type_deb() {
    let result = detect_file_type("package.deb");
    assert_eq!(result.unwrap(), FileType::Deb);
}

#[test]
fn test_detect_file_type_appimage() {
    let result = detect_file_type("app.AppImage");
    assert_eq!(result.unwrap(), FileType::AppImage);
}

#[test]
fn test_detect_file_type_appimage_lowercase() {
    let result = detect_file_type("app.appimage");
    assert_eq!(result.unwrap(), FileType::AppImage);
}

#[test]
fn test_detect_file_type_unknown() {
    let result = detect_file_type("file.xyz");
    assert!(result.is_err());
    match result {
        Err(AnError::UnknownFileType { extension }) => {
            assert_eq!(extension, "xyz");
        }
        _ => panic!("Expected UnknownFileType error"),
    }
}

#[test]
fn test_detect_file_type_no_extension() {
    let result = detect_file_type("file");
    assert!(result.is_err());
}

#[test]
fn test_detect_file_type_mixed_case() {
    assert_eq!(detect_file_type("pkg.DEB").unwrap(), FileType::Deb);
    assert_eq!(detect_file_type("app.APPIMAGE").unwrap(), FileType::AppImage);
}

#[test]
fn test_detect_file_type_empty_path() {
    match detect_file_type("") {
        Err(AnError::UnknownFileType { extension }) => {
            assert_eq!(extension, "なし");
        }
        _ => panic!("Expected UnknownFileType error"),
    }
}

#[test]
fn test_detect_file_type_uppercase_reported_lowered() {
    match detect_file_type("archive.TaR") {
        Err(AnError::UnknownFileType { extension }) => {
            assert_eq!(extension, "tar");
        }
        _ => panic!("Expected UnknownFileType error"),
    }
}

#[test]
fn test_install_options_default() {
    let options = InstallOptions::default();
    assert!(options.name.is_none());
    assert!(!options.desktop);
    assert!(!options.move_file);
}
