//! The list command: what is installed, and through which format.

use vstd::prelude::*;
use crate::handlers::appimage;
use crate::handlers::flatpak;
use crate::model::{SystemModel, contains_name, names_contains};
use crate::text::chars_of;

verus! {

/// Where an installed application came from.
#[derive(Debug, Clone, Copy)]
pub enum AppSource {
    AppImage,
    Flatpak,
    Deb,
}

impl AppSource {
    /// The display text of the source.
    pub fn label(&self) -> (r: String)
        ensures
            match self {
                AppSource::AppImage => r@ == "AppImage"@,
                AppSource::Flatpak => r@ == "Flatpak"@,
                AppSource::Deb => r@ == "Deb"@,
            },
    {
        match self {
            AppSource::AppImage => String::from_str("AppImage"),
            AppSource::Flatpak => String::from_str("Flatpak"),
            AppSource::Deb => String::from_str("Deb"),
        }
    }
}

/// One installed application, as a probe reports it.
#[derive(Debug)]
pub struct InstalledApp {
    pub name: String,
    pub source: AppSource,
    /// The artifact path for a portable binary, the bundle identifier
    /// for a sandboxed bundle, nothing for a native package.
    pub path: Option<String>,
}

/// The source the probes yield for a name, in the fixed priority
/// order of the detector: portable binary, then native package, then
/// sandboxed bundle.
pub open spec fn spec_installed_source(m: SystemModel, name: Seq<char>) -> Option<AppSource> {
    if appimage::spec_bin_is_managed(m.bin@, name, m.apps_dir@) {
        Some(AppSource::AppImage)
    } else if contains_name(m.packages@, name) {
        Some(AppSource::Deb)
    } else if flatpak::spec_flatpak_find(m.bundles@, name) is Some {
        Some(AppSource::Flatpak)
    } else {
        None
    }
}

/// Probes whether an application of the name is installed, and how.
pub fn is_installed(m: &SystemModel, name: &str) -> (r: Option<InstalledApp>)
    ensures
        r is Some <==> spec_installed_source(*m, name@) is Some,
        match r {
            Some(app) => {
                &&& app.name@ == name@
                &&& Some(app.source) == spec_installed_source(*m, name@)
                &&& match app.source {
                    AppSource::AppImage => app.path matches Some(p) && p@ == m.apps_dir@ + "/"@
                        + name@ + ".AppImage"@,
                    AppSource::Flatpak => app.path matches Some(p) && (
                    flatpak::spec_flatpak_find(m.bundles@, name@) matches Some(a) && p@
                        == a.id@),
                    AppSource::Deb => app.path is None,
                }
            },
            None => true,
        },
{
    if appimage::detect(m, name).is_some() {
        let path = String::from_str(m.apps_dir.as_str()).concat("/").concat(name).concat(
            ".AppImage",
        );
        return Some(
            InstalledApp {
                name: String::from_str(name),
                source: AppSource::AppImage,
                path: Some(path),
            },
        );
    }
    if names_contains(&m.packages, &chars_of(name)) {
        return Some(
            InstalledApp { name: String::from_str(name), source: AppSource::Deb, path: None },
        );
    }
    if let Some(app_id) = flatpak::detect(m, name) {
        return Some(
            InstalledApp {
                name: String::from_str(name),
                source: AppSource::Flatpak,
                path: Some(app_id),
            },
        );
    }
    None
}

} // verus!
