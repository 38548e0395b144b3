//! The registry-entry model.
//!
//! A registry entry describes one installable application: its name and
//! description, where it comes from (a download URL or a bundle
//! identifier) and optional metadata. Parsing the on-disk form is the
//! collaborator's business; this module holds the entry as plain values,
//! validates it, searches and filters collections of entries, and
//! expands URL placeholders.

use vstd::prelude::*;
use crate::errors::AnError;
use crate::text::{
    chars_of, chars_eq, starts_with, seq_starts_with, replace_chars, spec_replace,
    string_from_chars,
};

verus! {

/// How an application is installed.
#[derive(Debug, Clone, Copy, PartialEq, Eq, Structural)]
pub enum SourceType {
    AppImage,
    Deb,
    Flatpak,
    Script,
}

/// Basic information about an application.
#[derive(Debug)]
pub struct AppInfo {
    /// The short command name.
    pub name: String,
    /// A one-line description.
    pub description: String,
    /// The project home page, when known.
    pub homepage: Option<String>,
}

/// Where the application's payload comes from.
#[derive(Debug)]
pub struct SourceInfo {
    pub source_type: SourceType,
    /// The download URL; may hold `{version}` and `{arch}` placeholders.
    pub url: String,
    /// The bundle identifier, for sandboxed bundles.
    pub flatpak_id: Option<String>,
    /// The architectures the entry supports.
    pub architecture: Vec<String>,
}

/// Optional metadata of a registry entry.
#[derive(Debug)]
pub struct Metadata {
    pub categories: Option<Vec<String>>,
    pub desktop_entry: Option<bool>,
    pub version: Option<String>,
    pub maintainer: Option<String>,
}

/// One registry entry.
#[derive(Debug)]
pub struct AppConfig {
    pub app: AppInfo,
    pub source: SourceInfo,
    pub metadata: Option<Metadata>,
}

/// The message of the first validation rule a registry entry breaks, if
/// it breaks any: the name and description must be present; an entry
/// installed from a URL needs an HTTP(S) URL; a sandboxed bundle needs
/// its bundle identifier; and at least one architecture must be listed.
pub open spec fn spec_validate_err(c: AppConfig) -> Option<Seq<char>> {
    if c.app.name@.len() == 0 {
        Some("name is required"@)
    } else if c.app.description@.len() == 0 {
        Some("description is required"@)
    } else if c.source.source_type != SourceType::Flatpak && (c.source.url@.len() == 0 || (
    !seq_starts_with(c.source.url@, "http://"@) && !seq_starts_with(
        c.source.url@,
        "https://"@,
    ))) {
        Some("url must be a valid HTTP(S) URL"@)
    } else if c.source.source_type == SourceType::Flatpak && c.source.flatpak_id is None {
        Some("flatpak_id is required for Flatpak apps"@)
    } else if c.source.architecture@.len() == 0 {
        Some("architecture must have at least one entry"@)
    } else {
        None
    }
}

/// Checks a registry entry against the validation rules; `Ok` exactly
/// when no rule is broken, otherwise the first broken rule's message.
pub fn validate(config: &AppConfig) -> (r: Result<(), AnError>)
    ensures
        r is Ok <==> spec_validate_err(*config) is None,
        match r {
            Ok(_) => true,
            Err(e) => e matches AnError::ValidationError { message } && Some(message@)
                == spec_validate_err(*config),
        },
{
    if config.app.name.as_str().is_empty() {
        return Err(AnError::ValidationError { message: String::from_str("name is required") });
    }
    if config.app.description.as_str().is_empty() {
        return Err(
            AnError::ValidationError { message: String::from_str("description is required") },
        );
    }
    let is_flatpak = match config.source.source_type {
        SourceType::Flatpak => true,
        _ => false,
    };
    if !is_flatpak {
        let url = chars_of(config.source.url.as_str());
        if url.len() == 0 || (!starts_with(&url, &chars_of("http://")) && !starts_with(
            &url,
            &chars_of("https://"),
        )) {
            return Err(
                AnError::ValidationError {
                    message: String::from_str("url must be a valid HTTP(S) URL"),
                },
            );
        }
    } else {
        if config.source.flatpak_id.is_none() {
            return Err(
                AnError::ValidationError {
                    message: String::from_str("flatpak_id is required for Flatpak apps"),
                },
            );
        }
    }
    if config.source.architecture.len() == 0 {
        return Err(
            AnError::ValidationError {
                message: String::from_str("architecture must have at least one entry"),
            },
        );
    }
    Ok(())
}

/// The first entry of the given name, searched front to back.
pub open spec fn spec_find_by_name(apps: Seq<AppConfig>, name: Seq<char>) -> Option<AppConfig>
    decreases apps.len(),
{
    if apps.len() == 0 {
        None
    } else if apps[0].app.name@ == name {
        Some(apps[0])
    } else {
        spec_find_by_name(apps.drop_first(), name)
    }
}

/// Searches a collection of registry entries for the given name.
pub fn find_by_name(apps: Vec<AppConfig>, name: &str) -> (r: Option<AppConfig>)
    ensures
        r == spec_find_by_name(apps@, name@),
{
    let ghost orig = apps@;
    let mut rest = apps;
    let nc = chars_of(name);
    while rest.len() > 0
        invariant
            nc@ == name@,
            orig == apps@,
            spec_find_by_name(orig, name@) == spec_find_by_name(rest@, name@),
        decreases rest@.len(),
    {
        let ghost before = rest@;
        let c = rest.remove(0);
        if chars_eq(&chars_of(c.app.name.as_str()), &nc) {
            proof {
                assert(before[0] == c);
                assert(spec_find_by_name(before, name@) == Some(c));
                assert(spec_find_by_name(orig, name@) == Some(c));
            }
            return Some(c);
        }
        proof {
            assert(before.drop_first() =~= rest@);
        }
    }
    None
}

/// An entry supports the architecture when the architecture list holds
/// exactly that string.
pub open spec fn supports_arch(c: AppConfig, arch: Seq<char>) -> bool {
    exists|i: int| 0 <= i < c.source.architecture@.len() && c.source.architecture@[i]@ == arch
}

pub open spec fn spec_filter_by_architecture(apps: Seq<AppConfig>, arch: Seq<char>) -> Seq<
    AppConfig,
>
    decreases apps.len(),
{
    if apps.len() == 0 {
        Seq::<AppConfig>::empty()
    } else {
        let rest = spec_filter_by_architecture(apps.drop_last(), arch);
        if supports_arch(apps.last(), arch) {
            rest.push(apps.last())
        } else {
            rest
        }
    }
}

fn entry_supports_arch(c: &AppConfig, arch: &Vec<char>) -> (r: bool)
    ensures
        r == supports_arch(*c, arch@),
{
    let mut i: usize = 0;
    while i < c.source.architecture.len()
        invariant
            i <= c.source.architecture@.len(),
            forall|j: int| 0 <= j < i ==> c.source.architecture@[j]@ != arch@,
        decreases c.source.architecture@.len() - i,
    {
        if chars_eq(&chars_of(c.source.architecture[i].as_str()), arch) {
            return true;
        }
        i += 1;
    }
    false
}

/// Keeps the entries that support the given architecture, in order.
pub fn filter_by_architecture(apps: Vec<AppConfig>, arch: &str) -> (r: Vec<AppConfig>)
    ensures
        r@ == spec_filter_by_architecture(apps@, arch@),
{
    let ghost orig = apps@;
    let mut rest = apps;
    let ac = chars_of(arch);
    let mut r: Vec<AppConfig> = Vec::new();
    let ghost k: int = 0;
    proof {
        assert(orig.subrange(0, 0) =~= Seq::<AppConfig>::empty());
        assert(orig.subrange(0, orig.len() as int) =~= orig);
    }
    while rest.len() > 0
        invariant
            ac@ == arch@,
            orig == apps@,
            0 <= k <= orig.len(),
            rest@ == orig.subrange(k, orig.len() as int),
            r@ == spec_filter_by_architecture(orig.subrange(0, k), arch@),
        decreases rest@.len(),
    {
        let ghost before = rest@;
        let c = rest.remove(0);
        proof {
            assert(before.drop_first() =~= rest@);
            assert(before[0] == orig[k]);
            assert(orig.subrange(0, k + 1).drop_last() =~= orig.subrange(0, k));
            assert(orig.subrange(0, k + 1).last() == orig[k]);
            assert(rest@ =~= orig.subrange(k + 1, orig.len() as int));
        }
        if entry_supports_arch(&c, &ac) {
            r.push(c);
        }
        proof {
            k = k + 1;
        }
    }
    proof {
        assert(orig.subrange(k, orig.len() as int).len() == 0);
    }
    r
}

/// The URL with `{version}` replaced by the entry's metadata version
/// (when there is one) and `{arch}` replaced by the given architecture.
pub open spec fn spec_expand_url(url: Seq<char>, c: AppConfig, arch: Seq<char>) -> Seq<char> {
    let with_version = match c.metadata {
        Some(m) => match m.version {
            Some(v) => spec_replace(url, "{version}"@, v@),
            None => url,
        },
        None => url,
    };
    spec_replace(with_version, "{arch}"@, arch)
}

/// Expands the placeholders of a download URL.
pub fn expand_url(url: &str, config: &AppConfig, arch: &str) -> (r: String)
    ensures
        r@ == spec_expand_url(url@, *config, arch@),
{
    proof {
        reveal_strlit("{version}");
        reveal_strlit("{arch}");
    }
    let uc = chars_of(url);
    let with_version = match &config.metadata {
        Some(m) => match &m.version {
            Some(v) => replace_chars(
                &uc,
                &chars_of("{version}"),
                &chars_of(v.as_str()),
            ),
            None => uc,
        },
        None => uc,
    };
    let expanded = replace_chars(&with_version, &chars_of("{arch}"), &chars_of(arch));
    string_from_chars(&expanded)
}

} // verus!
