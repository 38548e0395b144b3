//! The install command: format detection and dispatch.
//!
//! A local artifact is classified by its file extension,
//! case-insensitively; everything else about installing is decided by
//! the orchestrator flow built on top of this module.

use vstd::prelude::*;
use crate::db::{AppConfig, SourceType, expand_url, spec_expand_url};
use crate::errors::AnError;
use crate::handlers::appimage;
use crate::paths::{extension_chars, spec_extension};
use crate::text::{chars_of, chars_eq, lower_chars, lower_seq, string_from_chars};

verus! {

/// The format of a local artifact.
#[derive(Debug, PartialEq, Eq, Structural, Clone, Copy)]
pub enum FileType {
    Deb,
    AppImage,
}

/// User-supplied install options.
pub struct InstallOptions {
    /// A custom command name, instead of the one the artifact name yields.
    pub name: Option<String>,
    /// Whether a desktop launcher entry should be written.
    pub desktop: bool,
    /// Whether the source artifact is removed after installing (move
    /// rather than copy).
    pub move_file: bool,
}

impl Default for InstallOptions {
    fn default() -> (r: Self)
        ensures
            r.name is None,
            !r.desktop,
            !r.move_file,
    {
        InstallOptions { name: None, desktop: false, move_file: false }
    }
}

/// The format a path's extension yields, when it is a supported one.
pub open spec fn spec_file_type_of(p: Seq<char>) -> Option<FileType> {
    match spec_extension(p) {
        Some(e) => if lower_seq(e) == "deb"@ {
            Some(FileType::Deb)
        } else if lower_seq(e) == "appimage"@ {
            Some(FileType::AppImage)
        } else {
            None
        },
        None => None,
    }
}

/// The extension text reported when a path's extension is unsupported:
/// the extension itself, lower-cased, or a fixed word when the path has
/// none.
pub open spec fn spec_unknown_ext_name(p: Seq<char>) -> Seq<char> {
    match spec_extension(p) {
        Some(e) => lower_seq(e),
        None => "なし"@,
    }
}

/// Classifies a local artifact by its extension, case-insensitively.
/// Exactly the supported extensions succeed; any other path fails
/// naming the offending extension.
pub fn detect_file_type(path: &str) -> (r: Result<FileType, AnError>)
    ensures
        match r {
            Ok(t) => spec_file_type_of(path@) == Some(t),
            Err(e) => spec_file_type_of(path@) is None && (e matches AnError::UnknownFileType {
                extension,
            } && extension@ == spec_unknown_ext_name(path@)),
        },
{
    let pc = chars_of(path);
    match extension_chars(&pc) {
        Some(e) => {
            let le = lower_chars(&e);
            if chars_eq(&le, &chars_of("deb")) {
                Ok(FileType::Deb)
            } else if chars_eq(&le, &chars_of("appimage")) {
                Ok(FileType::AppImage)
            } else {
                Err(AnError::UnknownFileType { extension: string_from_chars(&le) })
            }
        },
        None => Err(AnError::UnknownFileType { extension: String::from_str("なし") }),
    }
}

/// What the caller must do next to carry an install forward.
pub enum InstallAction {
    /// Check whether the path names an existing filesystem entry.
    ProbePath { path: String },
    /// Look the name up in the application registry.
    LookupRegistry { name: String },
    /// Install a portable binary: apply the handler's install to the
    /// model with these options and carry out the plan it returns.
    InstallPortable { path: String, options: appimage::InstallOptions },
    /// Run the package tool on the artifact.
    RunInstaller { path: String },
    /// Run the dependency-repair pass of the package tool.
    RunRepair,
    /// Ask the sandbox runtime for its version.
    CheckRuntime,
    /// Ask the user whether to continue.
    AskConfirm,
    /// Run the runtime's install subcommand against the catalog, with
    /// auto-confirm.
    RunBundleInstall { id: String },
    /// Check whether a system binary of the name already resolves on
    /// the search path.
    CheckConflict { name: String },
    /// Create the alias wrapper: apply the handler's wrapper creation
    /// to the model and write the file it returns.
    CreateWrapper { id: String, name: String },
    /// Fetch the URL into a local file of the given name.
    Download { url: String, filename: String },
    /// Delete the file (a downloaded artifact that is no longer
    /// needed).
    RemoveFile { path: String },
}

/// Where an install stands; each waiting state carries what the next
/// event decides about.
pub enum InstallFlow {
    /// Waiting to learn whether the target is a local file.
    ProbeTarget { target: String, arch: String, options: InstallOptions },
    /// Waiting for the registry's answer.
    AwaitRegistry { name: String, arch: String, options: InstallOptions },
    /// Waiting for the package tool's outcome.
    DebRun { path: String, cleanup: bool },
    /// Waiting for the repair pass's outcome.
    DebRepair { path: String, cleanup: bool },
    /// Waiting to learn whether the sandbox runtime is present.
    BundleRuntime { id: String, alias: String },
    /// Waiting for the user's confirmation of a bundle install.
    BundleConfirm { id: String, alias: String },
    /// Waiting for the runtime's install outcome.
    BundleInstall { id: String, alias: String },
    /// Waiting to learn whether the alias name collides with a system
    /// binary.
    BundleConflict { id: String, alias: String },
    /// Waiting for the user's confirmation of a download.
    UrlConfirm { config: AppConfig, arch: String, options: InstallOptions },
    /// Waiting for the download's outcome.
    UrlDownload { config: AppConfig, options: InstallOptions, url: String, filename: String },
    Done,
    Cancelled,
    Failed { error: AnError },
}

/// The event one install step consumes.
pub enum InstallEvent {
    /// Whether the target names an existing filesystem entry.
    Exists { yes: bool },
    /// The registry's answer for the name.
    Registry { entry: Option<AppConfig> },
    /// A tool finished, with its captured error text.
    ToolResult { ok: bool, stderr: String },
    /// Whether the sandbox runtime answered the version query.
    RuntimePresent { yes: bool },
    /// The user's answer.
    Confirmed { yes: bool },
    /// Whether a system binary of the checked name resolves.
    Conflict { yes: bool },
    /// The download's outcome and the local path it produced.
    Downloaded { ok: bool, path: String },
}

/// Which event a waiting state consumes.
pub open spec fn flow_expects(flow: InstallFlow, event: InstallEvent) -> bool {
    match flow {
        InstallFlow::ProbeTarget { .. } => event is Exists,
        InstallFlow::AwaitRegistry { .. } => event is Registry,
        InstallFlow::DebRun { .. } => event is ToolResult,
        InstallFlow::DebRepair { .. } => event is ToolResult,
        InstallFlow::BundleRuntime { .. } => event is RuntimePresent,
        InstallFlow::BundleConfirm { .. } => event is Confirmed,
        InstallFlow::BundleInstall { .. } => event is ToolResult,
        InstallFlow::BundleConflict { .. } => event is Conflict,
        InstallFlow::UrlConfirm { .. } => event is Confirmed,
        InstallFlow::UrlDownload { .. } => event is Downloaded,
        InstallFlow::Done => false,
        InstallFlow::Cancelled => false,
        InstallFlow::Failed { .. } => false,
    }
}

/// Whether the registry entry's metadata asks for a desktop entry.
pub open spec fn spec_meta_desktop(config: AppConfig) -> bool {
    match config.metadata {
        Some(meta) => match meta.desktop_entry {
            Some(b) => b,
            None => false,
        },
        None => false,
    }
}

/// Starts an install of the target: the first thing to learn is
/// whether the target is a local file; a bare name that names an
/// existing path in the working directory counts as local.
pub fn run_with_options(target: &str, arch: &str, options: InstallOptions) -> (r: (
    InstallFlow,
    InstallAction,
))
    ensures
        r.0 matches InstallFlow::ProbeTarget { target: t, arch: a, options: o } && t@ == target@
            && a@ == arch@ && o == options,
        r.1 matches InstallAction::ProbePath { path } && path@ == target@,
{
    (
        InstallFlow::ProbeTarget {
            target: String::from_str(target),
            arch: String::from_str(arch),
            options,
        },
        InstallAction::ProbePath { path: String::from_str(target) },
    )
}

/// Starts an install with the default options.
pub fn run(target: &str, arch: &str) -> (r: (InstallFlow, InstallAction))
    ensures
        r.0 matches InstallFlow::ProbeTarget { target: t, arch: a, options: o } && t@ == target@
            && a@ == arch@ && o.name is None && !o.desktop && !o.move_file,
        r.1 matches InstallAction::ProbePath { path } && path@ == target@,
{
    run_with_options(target, arch, InstallOptions::default())
}

/// Advances a pending install by one event.
///
/// A local target is classified by extension and dispatched; an
/// unsupported extension fails naming it. A remote name missing from
/// the registry fails naming it. A declined confirmation cancels
/// without error. The installer tool's own failure leads to the repair
/// pass, whose failure alone is fatal. A bundle whose alias name
/// collides with a system binary is installed with the alias skipped,
/// not an error. A downloaded artifact is always installed in move
/// mode, and a downloaded package file is deleted after installing.
pub fn step(flow: InstallFlow, event: InstallEvent) -> (r: (InstallFlow, Option<InstallAction>))
    requires
        flow_expects(flow, event),
    ensures
        match (flow, event) {
            (
                InstallFlow::ProbeTarget { target, arch, options },
                InstallEvent::Exists { yes },
            ) => if yes {
                match spec_file_type_of(target@) {
                    Some(FileType::Deb) => {
                        &&& (r.0 matches InstallFlow::DebRun { path, cleanup } && path == target
                            && !cleanup)
                        &&& (r.1 matches Some(InstallAction::RunInstaller { path }) && path
                            == target)
                    },
                    Some(FileType::AppImage) => {
                        &&& r.0 is Done
                        &&& (r.1 matches Some(InstallAction::InstallPortable { path, options: o })
                            && path == target && o.name == options.name && o.desktop_entry
                            == options.desktop && o.remove_source == options.move_file)
                    },
                    None => {
                        &&& (r.0 matches InstallFlow::Failed { error } && (error
                            matches AnError::UnknownFileType { extension } && extension@
                            == spec_unknown_ext_name(target@)))
                        &&& r.1 is None
                    },
                }
            } else {
                &&& (r.0 matches InstallFlow::AwaitRegistry { name, arch: a, options: o } && name
                    == target && a == arch && o == options)
                &&& (r.1 matches Some(InstallAction::LookupRegistry { name }) && name == target)
            },
            (
                InstallFlow::AwaitRegistry { name, arch, options },
                InstallEvent::Registry { entry },
            ) => match entry {
                None => {
                    &&& (r.0 matches InstallFlow::Failed { error } && error == (
                    AnError::AppNotInDatabase { name }))
                    &&& r.1 is None
                },
                Some(config) => match config.source.source_type {
                    SourceType::Flatpak => match config.source.flatpak_id {
                        None => {
                            &&& (r.0 matches InstallFlow::Failed { error } && (error
                                matches AnError::ValidationError { message } && message@
                                == "Flatpak IDが指定されていません"@))
                            &&& r.1 is None
                        },
                        Some(id) => {
                            &&& (r.0 matches InstallFlow::BundleRuntime { id: i, alias } && i
                                == id && alias == config.app.name)
                            &&& r.1 == Some(InstallAction::CheckRuntime)
                        },
                    },
                    SourceType::Script => r.0 is Done && r.1 is None,
                    _ => {
                        &&& (r.0 matches InstallFlow::UrlConfirm { config: c, arch: a, options: o }
                            && c == config && a == arch && o == options)
                        &&& r.1 == Some(InstallAction::AskConfirm)
                    },
                },
            },
            (
                InstallFlow::BundleRuntime { id, alias },
                InstallEvent::RuntimePresent { yes },
            ) => if yes {
                (r.0 matches InstallFlow::BundleConfirm { id: i, alias: a } && i == id && a
                    == alias) && r.1 == Some(InstallAction::AskConfirm)
            } else {
                (r.0 matches InstallFlow::Failed { error } && error is FlatpakNotInstalled)
                    && r.1 is None
            },
            (InstallFlow::BundleConfirm { id, alias }, InstallEvent::Confirmed { yes }) => if yes {
                &&& (r.0 matches InstallFlow::BundleInstall { id: i, alias: a } && i == id && a
                    == alias)
                &&& r.1 == Some(InstallAction::RunBundleInstall { id })
            } else {
                r.0 is Cancelled && r.1 is None
            },
            (
                InstallFlow::BundleInstall { id, alias },
                InstallEvent::ToolResult { ok, stderr },
            ) => if ok {
                &&& (r.0 matches InstallFlow::BundleConflict { id: i, alias: a } && i == id && a
                    == alias)
                &&& r.1 == Some(InstallAction::CheckConflict { name: alias })
            } else {
                (r.0 matches InstallFlow::Failed { error } && error == (
                AnError::FlatpakInstallError { message: stderr })) && r.1 is None
            },
            (InstallFlow::BundleConflict { id, alias }, InstallEvent::Conflict { yes }) => if yes {
                r.0 is Done && r.1 is None
            } else {
                r.0 is Done && r.1 == Some(InstallAction::CreateWrapper { id, name: alias })
            },
            (
                InstallFlow::UrlConfirm { config, arch, options },
                InstallEvent::Confirmed { yes },
            ) => if yes {
                &&& (r.0 matches InstallFlow::UrlDownload { config: c, options: o, url, filename }
                    && c == config && o == options && url@ == spec_expand_url(
                    config.source.url@,
                    config,
                    arch@,
                ) && filename@ == (match config.source.source_type {
                    SourceType::AppImage => config.app.name@ + ".AppImage"@,
                    SourceType::Deb => config.app.name@ + ".deb"@,
                    _ => config.app.name@,
                }))
                &&& (r.1 matches Some(InstallAction::Download { url, filename }) && url@
                    == spec_expand_url(config.source.url@, config, arch@) && filename@ == (
                match config.source.source_type {
                    SourceType::AppImage => config.app.name@ + ".AppImage"@,
                    SourceType::Deb => config.app.name@ + ".deb"@,
                    _ => config.app.name@,
                }))
            } else {
                r.0 is Cancelled && r.1 is None
            },
            (
                InstallFlow::UrlDownload { config, options, url, filename },
                InstallEvent::Downloaded { ok, path },
            ) => if ok {
                match config.source.source_type {
                    SourceType::Deb => {
                        &&& (r.0 matches InstallFlow::DebRun { path: p, cleanup } && p == path
                            && cleanup)
                        &&& (r.1 matches Some(InstallAction::RunInstaller { path: p }) && p
                            == path)
                    },
                    SourceType::AppImage => {
                        &&& r.0 is Done
                        &&& (r.1 matches Some(InstallAction::InstallPortable { path: p, options: o })
                            && p == path && o.name == options.name && o.desktop_entry == (
                        spec_meta_desktop(config) || options.desktop) && o.remove_source)
                    },
                    _ => r.0 is Done && r.1 is None,
                }
            } else {
                (r.0 matches InstallFlow::Failed { error } && error == (
                AnError::DownloadFailed { url })) && r.1 is None
            },
            (InstallFlow::DebRun { path, cleanup }, InstallEvent::ToolResult { ok, stderr }) => if ok {
                r.0 is Done && r.1 == if cleanup {
                    Some(InstallAction::RemoveFile { path })
                } else {
                    None::<InstallAction>
                }
            } else {
                &&& (r.0 matches InstallFlow::DebRepair { path: p, cleanup: c } && p == path && c
                    == cleanup)
                &&& r.1 == Some(InstallAction::RunRepair)
            },
            (
                InstallFlow::DebRepair { path, cleanup },
                InstallEvent::ToolResult { ok, stderr },
            ) => if ok {
                r.0 is Done && r.1 == if cleanup {
                    Some(InstallAction::RemoveFile { path })
                } else {
                    None::<InstallAction>
                }
            } else {
                (r.0 matches InstallFlow::Failed { error } && error == (
                AnError::DpkgError { message: stderr })) && r.1 is None
            },
            _ => true,
        },
{
    match (flow, event) {
        (InstallFlow::ProbeTarget { target, arch, options }, InstallEvent::Exists { yes }) => {
            if yes {
                match detect_file_type(target.as_str()) {
                    Ok(FileType::Deb) => {
                        (
                            InstallFlow::DebRun { path: target.clone(), cleanup: false },
                            Some(InstallAction::RunInstaller { path: target }),
                        )
                    },
                    Ok(FileType::AppImage) => {
                        (
                            InstallFlow::Done,
                            Some(
                                InstallAction::InstallPortable {
                                    path: target,
                                    options: appimage::InstallOptions {
                                        name: options.name,
                                        desktop_entry: options.desktop,
                                        remove_source: options.move_file,
                                    },
                                },
                            ),
                        )
                    },
                    Err(e) => (InstallFlow::Failed { error: e }, None),
                }
            } else {
                (
                    InstallFlow::AwaitRegistry { name: target.clone(), arch, options },
                    Some(InstallAction::LookupRegistry { name: target }),
                )
            }
        },
        (InstallFlow::AwaitRegistry { name, arch, options }, InstallEvent::Registry { entry }) => {
            match entry {
                None => (InstallFlow::Failed { error: AnError::AppNotInDatabase { name } }, None),
                Some(config) => {
                    match config.source.source_type {
                        SourceType::Flatpak => {
                            match config.source.flatpak_id {
                                None => {
                                    (
                                        InstallFlow::Failed {
                                            error: AnError::ValidationError {
                                                message: String::from_str(
                                                    "Flatpak IDが指定されていません",
                                                ),
                                            },
                                        },
                                        None,
                                    )
                                },
                                Some(id) => {
                                    (
                                        InstallFlow::BundleRuntime {
                                            id,
                                            alias: config.app.name,
                                        },
                                        Some(InstallAction::CheckRuntime),
                                    )
                                },
                            }
                        },
                        SourceType::Script => (InstallFlow::Done, None),
                        _ => {
                            (
                                InstallFlow::UrlConfirm { config, arch, options },
                                Some(InstallAction::AskConfirm),
                            )
                        },
                    }
                },
            }
        },
        (InstallFlow::BundleRuntime { id, alias }, InstallEvent::RuntimePresent { yes }) => {
            if yes {
                (InstallFlow::BundleConfirm { id, alias }, Some(InstallAction::AskConfirm))
            } else {
                (InstallFlow::Failed { error: AnError::FlatpakNotInstalled }, None)
            }
        },
        (InstallFlow::BundleConfirm { id, alias }, InstallEvent::Confirmed { yes }) => {
            if yes {
                (
                    InstallFlow::BundleInstall { id: id.clone(), alias },
                    Some(InstallAction::RunBundleInstall { id }),
                )
            } else {
                (InstallFlow::Cancelled, None)
            }
        },
        (InstallFlow::BundleInstall { id, alias }, InstallEvent::ToolResult { ok, stderr }) => {
            if ok {
                (
                    InstallFlow::BundleConflict { id, alias: alias.clone() },
                    Some(InstallAction::CheckConflict { name: alias }),
                )
            } else {
                (InstallFlow::Failed { error: AnError::FlatpakInstallError { message: stderr } }, None)
            }
        },
        (InstallFlow::BundleConflict { id, alias }, InstallEvent::Conflict { yes }) => {
            if yes {
                (InstallFlow::Done, None)
            } else {
                (InstallFlow::Done, Some(InstallAction::CreateWrapper { id, name: alias }))
            }
        },
        (InstallFlow::UrlConfirm { config, arch, options }, InstallEvent::Confirmed { yes }) => {
            if yes {
                let url = expand_url(config.source.url.as_str(), &config, arch.as_str());
                let filename = match config.source.source_type {
                    SourceType::AppImage => config.app.name.clone().concat(".AppImage"),
                    SourceType::Deb => config.app.name.clone().concat(".deb"),
                    _ => config.app.name.clone(),
                };
                (
                    InstallFlow::UrlDownload {
                        config,
                        options,
                        url: url.clone(),
                        filename: filename.clone(),
                    },
                    Some(InstallAction::Download { url, filename }),
                )
            } else {
                (InstallFlow::Cancelled, None)
            }
        },
        (
            InstallFlow::UrlDownload { config, options, url, filename },
            InstallEvent::Downloaded { ok, path },
        ) => {
            if ok {
                match config.source.source_type {
                    SourceType::Deb => {
                        (
                            InstallFlow::DebRun { path: path.clone(), cleanup: true },
                            Some(InstallAction::RunInstaller { path }),
                        )
                    },
                    SourceType::AppImage => {
                        let meta_desktop = match &config.metadata {
                            Some(meta) => match meta.desktop_entry {
                                Some(b) => b,
                                None => false,
                            },
                            None => false,
                        };
                        (
                            InstallFlow::Done,
                            Some(
                                InstallAction::InstallPortable {
                                    path,
                                    options: appimage::InstallOptions {
                                        name: options.name,
                                        desktop_entry: meta_desktop || options.desktop,
                                        remove_source: true,
                                    },
                                },
                            ),
                        )
                    },
                    _ => (InstallFlow::Done, None),
                }
            } else {
                (InstallFlow::Failed { error: AnError::DownloadFailed { url } }, None)
            }
        },
        (InstallFlow::DebRun { path, cleanup }, InstallEvent::ToolResult { ok, stderr: _ }) => {
            if ok {
                if cleanup {
                    (InstallFlow::Done, Some(InstallAction::RemoveFile { path }))
                } else {
                    (InstallFlow::Done, None)
                }
            } else {
                (
                    InstallFlow::DebRepair { path, cleanup },
                    Some(InstallAction::RunRepair),
                )
            }
        },
        (InstallFlow::DebRepair { path, cleanup }, InstallEvent::ToolResult { ok, stderr }) => {
            if ok {
                if cleanup {
                    (InstallFlow::Done, Some(InstallAction::RemoveFile { path }))
                } else {
                    (InstallFlow::Done, None)
                }
            } else {
                (InstallFlow::Failed { error: AnError::DpkgError { message: stderr } }, None)
            }
        },
        _ => (InstallFlow::Done, None),
    }
}

} // verus!
