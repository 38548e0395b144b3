//! The error taxonomy of the crate.
//!
//! Every failure a handler or the orchestrator can report is one of these
//! variants; `message` renders the user-facing text, with a stable code in
//! front.

use vstd::prelude::*;

verus! {

/// A failure of an install, remove, link or lookup operation.
#[derive(Debug)]
pub enum AnError {
    /// The given artifact path names no existing file.
    FileNotFound { path: String },
    /// The artifact's extension belongs to no supported format.
    UnknownFileType { extension: String },
    /// The registry holds no entry of the given name.
    AppNotInDatabase { name: String },
    /// Fetching the given URL failed.
    DownloadFailed { url: String },
    /// The package tool failed even after the dependency repair pass.
    DpkgError { message: String },
    /// No probe recognises an installed application of the given name.
    AppNotInstalled { name: String },
    /// The purge subcommand of the package tool failed.
    AptPurgeError { message: String },
    /// The bundle runtime's uninstall subcommand failed.
    FlatpakUninstallError { message: String },
    /// The bundle runtime's install subcommand failed.
    FlatpakInstallError { message: String },
    /// The bundle runtime is not present on this system.
    FlatpakNotInstalled,
    /// Creating a symlink failed.
    SymlinkCreationFailed { path: String },
    /// The update information could not be fetched.
    UpdateCheckFailed,
    /// A filesystem operation failed.
    IoError { message: String },
    /// A registry entry could not be parsed.
    TomlError { message: String },
    /// A registry entry is malformed for its declared format.
    ValidationError { message: String },
}

impl AnError {
    /// The user-facing text of this error.
    pub open spec fn spec_message(&self) -> Seq<char> {
        match self {
            AnError::FileNotFound { path } => "E001: ファイルが見つかりません: "@ + path@,
            AnError::UnknownFileType { extension } => "E002: 不明なファイル形式です: "@
                + extension@,
            AnError::AppNotInDatabase { name } => "E003: アプリDBにエントリが見つかりません: "@
                + name@,
            AnError::DownloadFailed { url } => "E004: ダウンロードに失敗しました: "@ + url@,
            AnError::DpkgError { message } => "E005: dpkg/権限エラー: "@ + message@,
            AnError::AppNotInstalled { name } => "E101: アプリが見つかりません: "@ + name@,
            AnError::AptPurgeError { message } => "E102: apt purgeに失敗しました: "@ + message@,
            AnError::FlatpakUninstallError { message } => "E103: flatpak uninstallに失敗しました: "@
                + message@,
            AnError::FlatpakInstallError { message } => "E006: flatpak installに失敗しました: "@
                + message@,
            AnError::FlatpakNotInstalled => "E201: Flatpakがインストールされていません"@,
            AnError::SymlinkCreationFailed { path } => "E202: シンボリックリンクの作成に失敗しました: "@
                + path@,
            AnError::UpdateCheckFailed => "E301: アップデート情報の取得に失敗しました"@,
            AnError::IoError { message } => "E901: I/Oエラー: "@ + message@,
            AnError::TomlError { message } => "E902: TOMLパースエラー: "@ + message@,
            AnError::ValidationError { message } => "E903: バリデーションエラー: "@ + message@,
        }
    }

    pub fn message(&self) -> (r: String)
        ensures
            r@ == self.spec_message(),
    {
        match self {
            AnError::FileNotFound { path } => String::from_str(
                "E001: ファイルが見つかりません: ",
            ).concat(path.as_str()),
            AnError::UnknownFileType { extension } => String::from_str(
                "E002: 不明なファイル形式です: ",
            ).concat(extension.as_str()),
            AnError::AppNotInDatabase { name } => String::from_str(
                "E003: アプリDBにエントリが見つかりません: ",
            ).concat(name.as_str()),
            AnError::DownloadFailed { url } => String::from_str(
                "E004: ダウンロードに失敗しました: ",
            ).concat(url.as_str()),
            AnError::DpkgError { message } => String::from_str(
                "E005: dpkg/権限エラー: ",
            ).concat(message.as_str()),
            AnError::AppNotInstalled { name } => String::from_str(
                "E101: アプリが見つかりません: ",
            ).concat(name.as_str()),
            AnError::AptPurgeError { message } => String::from_str(
                "E102: apt purgeに失敗しました: ",
            ).concat(message.as_str()),
            AnError::FlatpakUninstallError { message } => String::from_str(
                "E103: flatpak uninstallに失敗しました: ",
            ).concat(message.as_str()),
            AnError::FlatpakInstallError { message } => String::from_str(
                "E006: flatpak installに失敗しました: ",
            ).concat(message.as_str()),
            AnError::FlatpakNotInstalled => String::from_str(
                "E201: Flatpakがインストールされていません",
            ),
            AnError::SymlinkCreationFailed { path } => String::from_str(
                "E202: シンボリックリンクの作成に失敗しました: ",
            ).concat(path.as_str()),
            AnError::UpdateCheckFailed => String::from_str(
                "E301: アップデート情報の取得に失敗しました",
            ),
            AnError::IoError { message } => String::from_str(
                "E901: I/Oエラー: ",
            ).concat(message.as_str()),
            AnError::TomlError { message } => String::from_str(
                "E902: TOMLパースエラー: ",
            ).concat(message.as_str()),
            AnError::ValidationError { message } => String::from_str(
                "E903: バリデーションエラー: ",
            ).concat(message.as_str()),
        }
    }
}

} // verus!
