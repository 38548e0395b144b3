//! The remove command: probe, dispatch, and the removal flow.
//!
//! A target name is probed in a fixed priority order — managed
//! portable-binary symlink, then native package, then sandboxed
//! bundle — and the matching handler's removal is carried out. The
//! subprocess parts run outside; this module decides what to run and
//! what each outcome means.

use vstd::prelude::*;
use crate::errors::AnError;
use crate::handlers::appimage;
use crate::handlers::deb;
use crate::handlers::flatpak;
use crate::model::{SystemModel, contains_name};

verus! {

/// The install format a probe recognised.
#[derive(Debug, PartialEq, Eq, Structural, Clone, Copy)]
pub enum InstallType {
    AppImage,
    Deb,
    Flatpak,
}

/// A successful probe: the format and the identifier the handler's
/// removal needs (the short name, the package name, or the bundle
/// identifier).
#[derive(Debug)]
pub struct DetectionInfo {
    pub install_type: InstallType,
    pub identifier: String,
}

/// The format the probes yield for a name, in priority order: the
/// portable-binary probe first, then the native-package probe, then
/// the sandboxed-bundle probe.
pub open spec fn spec_detected_type(m: SystemModel, t: Seq<char>) -> Option<InstallType> {
    if appimage::spec_bin_is_managed(m.bin@, t, m.apps_dir@) {
        Some(InstallType::AppImage)
    } else if contains_name(m.packages@, t) {
        Some(InstallType::Deb)
    } else if flatpak::spec_flatpak_find(m.bundles@, t) is Some {
        Some(InstallType::Flatpak)
    } else {
        None
    }
}

/// Probes the target in priority order and names what was found.
pub fn detect_type(m: &SystemModel, target: &str) -> (r: Option<DetectionInfo>)
    ensures
        r is Some <==> spec_detected_type(*m, target@) is Some,
        match r {
            Some(d) => Some(d.install_type) == spec_detected_type(*m, target@)
                && match d.install_type {
                InstallType::AppImage => d.identifier@ == target@,
                InstallType::Deb => d.identifier@ == target@,
                InstallType::Flatpak => flatpak::spec_flatpak_find(m.bundles@, target@)
                    matches Some(a) && d.identifier@ == a.id@,
            },
            None => true,
        },
{
    if let Some(name) = appimage::detect(m, target) {
        return Some(DetectionInfo { install_type: InstallType::AppImage, identifier: name });
    }
    if let Some(name) = deb::detect(m, target) {
        return Some(DetectionInfo { install_type: InstallType::Deb, identifier: name });
    }
    if let Some(id) = flatpak::detect(m, target) {
        return Some(DetectionInfo { install_type: InstallType::Flatpak, identifier: id });
    }
    None
}

/// Probe priority: a name that both the portable-binary probe and the
/// native-package probe recognise is reported as a portable binary —
/// the first probe wins.
pub proof fn lemma_probe_priority(m: SystemModel, t: Seq<char>)
    requires
        appimage::spec_bin_is_managed(m.bin@, t, m.apps_dir@),
        contains_name(m.packages@, t),
    ensures
        spec_detected_type(m, t) == Some(InstallType::AppImage),
{
}

/// What the caller must do next to carry a removal forward.
pub enum RemoveAction {
    /// Carry out a portable-binary removal plan.
    ExecuteRemovePlan { plan: appimage::RemovePlan },
    /// Run the package tool's purge subcommand on the package.
    RunPurge { package: String },
    /// Best-effort: run the unused-dependency cleanup; its failure is
    /// not surfaced.
    RunAutoremove,
    /// Run the runtime's uninstall-with-data subcommand on the bundle.
    RunUninstall { id: String },
    /// Read the script at the path, if a file exists there, and hand
    /// its text back.
    ReadWrapper { path: String },
    /// Delete the wrapper script at the path.
    DeleteWrapper { path: String },
}

/// Where a removal stands; the states that wait carry what the next
/// event decides about.
pub enum RemoveFlow {
    /// Waiting for the purge tool's outcome.
    AwaitPurge,
    /// Waiting for the uninstall tool's outcome.
    AwaitUninstall { id: String },
    /// Waiting for the guessed wrapper's text.
    AwaitWrapper { id: String, path: String },
    Done,
    Failed { error: AnError },
}

/// The event one removal step consumes.
pub enum RemoveEvent {
    /// A tool finished, with its captured error text.
    ToolResult { ok: bool, stderr: String },
    /// The wrapper file's text, or nothing when no file exists.
    WrapperContent { exists: bool, content: String },
}

/// Which event a waiting state consumes.
pub open spec fn flow_expects(flow: RemoveFlow, event: RemoveEvent) -> bool {
    match flow {
        RemoveFlow::AwaitPurge => event is ToolResult,
        RemoveFlow::AwaitUninstall { .. } => event is ToolResult,
        RemoveFlow::AwaitWrapper { .. } => event is WrapperContent,
        RemoveFlow::Done => false,
        RemoveFlow::Failed { .. } => false,
    }
}

/// Starts a removal: probes the target and dispatches to the owning
/// handler. A portable binary is removed from the model at once and
/// its deletions handed back; the other two formats hand back the tool
/// invocation to run. No probe matching is a failure naming the
/// target.
pub fn run(m: &mut SystemModel, target: &str) -> (r: (RemoveFlow, Option<RemoveAction>))
    requires
        old(m).wf(),
    ensures
        final(m).wf(),
        match spec_detected_type(*old(m), target@) {
            None => {
                &&& *final(m) == *old(m)
                &&& r.0 matches RemoveFlow::Failed { error } && (error
                    matches AnError::AppNotInstalled { name } && name@ == target@)
                &&& r.1 is None
            },
            Some(InstallType::AppImage) => {
                &&& r.0 is Done
                &&& (r.1 matches Some(RemoveAction::ExecuteRemovePlan { plan })
                    && final(m).apps@ == appimage::spec_remove_target_file(
                    old(m).apps@,
                    old(m).apps_dir@,
                    plan.target_path@,
                ))
                &&& final(m).bin@ == crate::model::spec_bin_remove(old(m).bin@, target@)
                &&& final(m).desktop@ == crate::model::spec_names_remove(
                    old(m).desktop@,
                    target@,
                )
            },
            Some(InstallType::Deb) => {
                &&& *final(m) == *old(m)
                &&& r.0 is AwaitPurge
                &&& r.1 matches Some(RemoveAction::RunPurge { package }) && package@ == target@
            },
            Some(InstallType::Flatpak) => {
                &&& *final(m) == *old(m)
                &&& (r.0 matches RemoveFlow::AwaitUninstall { id } && (
                flatpak::spec_flatpak_find(old(m).bundles@, target@) matches Some(a) && id@
                    == a.id@))
                &&& (r.1 matches Some(RemoveAction::RunUninstall { id }) && (
                flatpak::spec_flatpak_find(old(m).bundles@, target@) matches Some(a) && id@
                    == a.id@))
            },
        },
{
    let detection = match detect_type(m, target) {
        Some(d) => d,
        None => {
            return (
                (
                    RemoveFlow::Failed {
                        error: AnError::AppNotInstalled { name: String::from_str(target) },
                    },
                    None,
                )
            );
        },
    };
    match detection.install_type {
        InstallType::AppImage => {
            match appimage::remove(m, target) {
                Ok(plan) => (RemoveFlow::Done, Some(RemoveAction::ExecuteRemovePlan { plan })),
                Err(_) => {
                    // the probe saw a managed symlink, so the removal
                    // cannot miss it
                    proof {
                        assert(false);
                    }
                    (RemoveFlow::Done, None)
                },
            }
        },
        InstallType::Deb => {
            (
                RemoveFlow::AwaitPurge,
                Some(RemoveAction::RunPurge { package: detection.identifier }),
            )
        },
        InstallType::Flatpak => {
            (
                RemoveFlow::AwaitUninstall { id: detection.identifier.clone() },
                Some(RemoveAction::RunUninstall { id: detection.identifier }),
            )
        },
    }
}

/// Advances a pending removal by one event.
///
/// A failed purge or uninstall surfaces the tool's diagnostic text; a
/// successful purge asks for the dependency cleanup; a successful
/// uninstall asks for the guessed wrapper's text; and the wrapper is
/// deleted only when its text carries the ownership marker and the
/// bundle identifier — an unrelated script of the same guessed name is
/// left untouched.
pub fn step(m: &SystemModel, flow: RemoveFlow, event: RemoveEvent) -> (r: (
    RemoveFlow,
    Option<RemoveAction>,
))
    requires
        flow_expects(flow, event),
    ensures
        match (flow, event) {
            (RemoveFlow::AwaitPurge, RemoveEvent::ToolResult { ok, stderr }) => if ok {
                r.0 is Done && r.1 == Some(RemoveAction::RunAutoremove)
            } else {
                (r.0 matches RemoveFlow::Failed { error } && error == (
                AnError::AptPurgeError { message: stderr })) && r.1 is None
            },
            (
                RemoveFlow::AwaitUninstall { id },
                RemoveEvent::ToolResult { ok, stderr },
            ) => if ok {
                &&& (r.0 matches RemoveFlow::AwaitWrapper { id: i, path } && i == id && path@
                    == m.bin_dir@ + "/"@ + flatpak::spec_wrapper_name_guess(id@))
                &&& (r.1 matches Some(RemoveAction::ReadWrapper { path }) && path@
                    == m.bin_dir@ + "/"@ + flatpak::spec_wrapper_name_guess(id@))
            } else {
                (r.0 matches RemoveFlow::Failed { error } && error == (
                AnError::FlatpakUninstallError { message: stderr })) && r.1 is None
            },
            (
                RemoveFlow::AwaitWrapper { id, path },
                RemoveEvent::WrapperContent { exists, content },
            ) => {
                &&& r.0 is Done
                &&& if exists && flatpak::spec_owned_wrapper(content@, id@) {
                    r.1 == Some(RemoveAction::DeleteWrapper { path })
                } else {
                    r.1 is None
                }
            },
            _ => true,
        },
{
    match (flow, event) {
        (RemoveFlow::AwaitPurge, RemoveEvent::ToolResult { ok, stderr }) => {
            if ok {
                (RemoveFlow::Done, Some(RemoveAction::RunAutoremove))
            } else {
                (RemoveFlow::Failed { error: AnError::AptPurgeError { message: stderr } }, None)
            }
        },
        (RemoveFlow::AwaitUninstall { id }, RemoveEvent::ToolResult { ok, stderr }) => {
            if ok {
                let guess = flatpak::wrapper_name_guess(id.as_str());
                let wrapper_path = crate::paths::join_path(m.bin_dir.as_str(), guess.as_str());
                (
                    RemoveFlow::AwaitWrapper { id, path: wrapper_path.clone() },
                    Some(RemoveAction::ReadWrapper { path: wrapper_path }),
                )
            } else {
                (
                    RemoveFlow::Failed {
                        error: AnError::FlatpakUninstallError { message: stderr },
                    },
                    None,
                )
            }
        },
        (RemoveFlow::AwaitWrapper { id, path }, RemoveEvent::WrapperContent { exists, content }) => {
            if exists && flatpak::is_owned_wrapper(content.as_str(), id.as_str()) {
                (RemoveFlow::Done, Some(RemoveAction::DeleteWrapper { path }))
            } else {
                (RemoveFlow::Done, None)
            }
        },
        _ => (RemoveFlow::Done, None),
    }
}

} // verus!
