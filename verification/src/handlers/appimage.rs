//! The portable-binary handler.
//!
//! An AppImage is installed by copying it into the managed applications
//! directory, marking it executable, and pointing a symlink in the
//! managed link directory at it; removal reverses those steps. This
//! module holds the name-extraction rule and, over the system model, the
//! install, remove, detect and list operations.

use vstd::prelude::*;
use crate::errors::AnError;
use crate::model::{
    SystemModel, BinEntry, BinItem, spec_bin_lookup, spec_bin_upsert, spec_bin_remove,
    spec_names_add, spec_names_remove, bin_upsert, bin_remove, bin_find_index, names_add,
    names_remove, unique_bin_names, lemma_bin_upsert_props, lemma_bin_remove_props,
    lemma_bin_lookup_at, lemma_bin_upsert_at,
};
use crate::paths::{spec_file_stem, file_stem_chars, spec_base_name, base_name_chars, join_path};
use crate::text::{
    chars_of, is_digit, is_digit_char, chars_eq, lower_chars, lower_seq, split_chars, spec_split,
    join_chars, spec_join, string_from_chars, to_upper_char, upper_char, starts_with,
    sort_strings, sorted_strings,
};

verus! {

/// A token naming a machine architecture in an artifact file name.
pub open spec fn arch_token(t: Seq<char>) -> bool {
    ||| t == "x86_64"@
    ||| t == "x64"@
    ||| t == "amd64"@
    ||| t == "aarch64"@
    ||| t == "arm64"@
}

/// A token that looks like a version number (it starts with a digit) or
/// an architecture name; such tokens end the application-name part of a
/// file name.
pub open spec fn version_or_arch_token(t: Seq<char>) -> bool {
    (t.len() > 0 && is_digit_char(t[0])) || arch_token(t)
}

/// The longest leading run of tokens in which none looks like a version
/// number or an architecture.
pub open spec fn spec_leading_name_tokens(toks: Seq<Seq<char>>) -> Seq<Seq<char>>
    decreases toks.len(),
{
    if toks.len() == 0 {
        Seq::<Seq<char>>::empty()
    } else if version_or_arch_token(toks[0]) {
        Seq::<Seq<char>>::empty()
    } else {
        seq![toks[0]] + spec_leading_name_tokens(toks.drop_first())
    }
}

proof fn lemma_leading_name_tokens(toks: Seq<Seq<char>>, i: int)
    requires
        0 <= i <= toks.len(),
        forall|j: int| 0 <= j < i ==> !version_or_arch_token(toks[j]),
        i < toks.len() ==> version_or_arch_token(toks[i]),
    ensures
        spec_leading_name_tokens(toks) == toks.subrange(0, i),
    decreases toks.len(),
{
    if i == 0 {
        assert(toks.subrange(0, 0) =~= Seq::<Seq<char>>::empty());
    } else {
        let rest = toks.drop_first();
        lemma_leading_name_tokens(rest, i - 1);
        assert(toks.subrange(0, i) =~= seq![toks[0]] + rest.subrange(0, i - 1));
    }
}

/// The short command name an artifact file name yields: the stem is cut
/// at `-` and `_`, tokens from the first version-or-architecture token on
/// are dropped, the rest are joined with `-` and lower-cased; when
/// everything was dropped, the first token alone is used. A path without
/// a file stem, or a name that still reduces to nothing, falls back to a
/// fixed name: the result is never empty.
pub open spec fn spec_extract_app_name(path: Seq<char>) -> Seq<char> {
    match spec_file_stem(path) {
        Some(stem) => {
            let toks = spec_split(stem, seq!['-', '_']);
            let kept = spec_leading_name_tokens(toks);
            let joined = spec_join(kept, '-');
            let candidate = if joined.len() == 0 {
                lower_seq(toks[0])
            } else {
                lower_seq(joined)
            };
            if candidate.len() == 0 {
                "app"@
            } else {
                candidate
            }
        },
        None => "app"@,
    }
}

fn name_token_ok(t: &Vec<char>) -> (r: bool)
    ensures
        r == !version_or_arch_token(t@),
{
    if t.len() > 0 && is_digit(t[0]) {
        return false;
    }
    !(chars_eq(t, &chars_of("x86_64")) || chars_eq(t, &chars_of("x64")) || chars_eq(
        t,
        &chars_of("amd64"),
    ) || chars_eq(t, &chars_of("aarch64")) || chars_eq(t, &chars_of("arm64")))
}

/// Derives the short command name from an artifact path.
pub fn extract_app_name(path: &str) -> (r: String)
    ensures
        r@ == spec_extract_app_name(path@),
        r@.len() > 0,
{
    proof {
        reveal_strlit("app");
    }
    let pc = chars_of(path);
    match file_stem_chars(&pc) {
        Some(stem) => {
            let mut seps: Vec<char> = Vec::new();
            seps.push('-');
            seps.push('_');
            proof {
                assert(seps@ =~= seq!['-', '_']);
            }
            let mut toks = split_chars(&stem, &seps);
            let ghost all = toks.deep_view();
            let fallback = lower_chars(&toks[0]);
            let mut i: usize = 0;
            while i < toks.len() && name_token_ok(&toks[i])
                invariant
                    i <= toks@.len(),
                    toks.deep_view() == all,
                    forall|j: int| 0 <= j < i ==> !version_or_arch_token(all[j]),
                decreases toks@.len() - i,
            {
                proof {
                    assert(all[i as int] == toks@[i as int]@);
                }
                i += 1;
            }
            proof {
                if i < toks@.len() {
                    assert(all[i as int] == toks@[i as int]@);
                }
                lemma_leading_name_tokens(all, i as int);
            }
            toks.truncate(i);
            proof {
                assert(toks.deep_view() =~~= all.subrange(0, i as int));
            }
            let joined = join_chars(&toks, '-');
            let candidate = if joined.len() == 0 {
                fallback
            } else {
                lower_chars(&joined)
            };
            if candidate.len() == 0 {
                String::from_str("app")
            } else {
                string_from_chars(&candidate)
            }
        },
        None => String::from_str("app"),
    }
}

/// The managed applications directory under a home directory.
pub fn apps_dir(home: &str) -> (r: String)
    ensures
        r@ == home@ + "/Applications"@,
{
    String::from_str(home).concat("/Applications")
}

/// The managed link directory under a home directory.
pub fn bin_dir(home: &str) -> (r: String)
    ensures
        r@ == home@ + "/.local/bin"@,
{
    String::from_str(home).concat("/.local/bin")
}

/// The desktop-entry directory under a data directory.
pub fn desktop_dir(data_dir: &str) -> (r: String)
    ensures
        r@ == data_dir@ + "/applications"@,
{
    String::from_str(data_dir).concat("/applications")
}

/// Install options of the portable-binary handler.
pub struct InstallOptions {
    /// A custom command name, instead of the one the artifact name yields.
    pub name: Option<String>,
    /// Whether a desktop launcher entry is written.
    pub desktop_entry: bool,
    /// Whether the source artifact is removed after copying.
    pub remove_source: bool,
}

impl Default for InstallOptions {
    fn default() -> (r: Self)
        ensures
            r.name is None,
            !r.desktop_entry,
            !r.remove_source,
    {
        InstallOptions { name: None, desktop_entry: false, remove_source: false }
    }
}

/// A desktop launcher entry to be written.
pub struct DesktopFile {
    pub path: String,
    pub content: String,
}

/// The filesystem work one portable-binary install asks of the caller,
/// in order: copy the artifact to `dest_path` (deleting the source
/// afterwards when `remove_source`), make it executable, replace
/// whatever sits at `link_path` with a symlink to `dest_path`, and
/// write the desktop entry when one is given.
pub struct InstallPlan {
    pub app_name: String,
    pub file_name: String,
    pub dest_path: String,
    pub link_path: String,
    pub remove_source: bool,
    pub desktop_file: Option<DesktopFile>,
}

/// The filesystem work one portable-binary removal asks of the caller,
/// in order: delete the symlink at `link_path`, delete `target_path` if
/// it still exists, and delete `desktop_path` if it exists.
pub struct RemovePlan {
    pub link_path: String,
    pub target_path: String,
    pub desktop_path: String,
}

/// A word with its first character upper-cased.
pub open spec fn spec_capitalize(t: Seq<char>) -> Seq<char> {
    if t.len() == 0 {
        t
    } else {
        seq![upper_char(t[0])] + t.drop_first()
    }
}

pub open spec fn spec_capitalize_all(ts: Seq<Seq<char>>) -> Seq<Seq<char>> {
    ts.map_values(|t: Seq<char>| spec_capitalize(t))
}

/// The human-readable title of a short name: its hyphen-separated words,
/// each capitalised, joined with spaces.
pub open spec fn spec_display_name(name: Seq<char>) -> Seq<char> {
    spec_join(spec_capitalize_all(spec_split(name, seq!['-'])), ' ')
}

fn capitalize(t: &Vec<char>) -> (r: Vec<char>)
    ensures
        r@ == spec_capitalize(t@),
{
    let mut r: Vec<char> = Vec::new();
    if t.len() == 0 {
        return r;
    }
    r.push(to_upper_char(t[0]));
    let mut i: usize = 1;
    while i < t.len()
        invariant
            1 <= i <= t@.len(),
            r@ == seq![upper_char(t@[0])] + t@.subrange(1, i as int),
        decreases t@.len() - i,
    {
        r.push(t[i]);
        proof {
            assert(r@ =~= seq![upper_char(t@[0])] + t@.subrange(1, i + 1));
        }
        i += 1;
    }
    proof {
        assert(t@.subrange(1, t@.len() as int) =~= t@.drop_first());
    }
    r
}

fn display_name(name: &Vec<char>) -> (r: Vec<char>)
    ensures
        r@ == spec_display_name(name@),
{
    let mut seps: Vec<char> = Vec::new();
    seps.push('-');
    proof {
        assert(seps@ =~= seq!['-']);
    }
    let toks = split_chars(name, &seps);
    let ghost all = toks.deep_view();
    let mut caps: Vec<Vec<char>> = Vec::new();
    let mut i: usize = 0;
    proof {
        assert(caps.deep_view() =~~= spec_capitalize_all(all.subrange(0, 0)));
    }
    while i < toks.len()
        invariant
            i <= toks@.len(),
            toks.deep_view() == all,
            caps.deep_view() == spec_capitalize_all(all.subrange(0, i as int)),
        decreases toks@.len() - i,
    {
        let ghost pre = all.subrange(0, i as int);
        let c = capitalize(&toks[i]);
        caps.push(c);
        proof {
            let post = all.subrange(0, i + 1);
            assert(all.len() == toks@.len());
            assert(all[i as int] == toks@[i as int]@);
            assert(pre.len() == i as int);
            assert(spec_capitalize_all(pre).len() == i as int);
            assert(caps.deep_view().len() == caps@.len());
            assert(caps@.len() == i + 1);
            assert(spec_capitalize_all(post).len() == i + 1);
            assert(caps.deep_view().len() == spec_capitalize_all(post).len());
            assert forall|j: int| 0 <= j < caps.deep_view().len() implies caps.deep_view()[j]
                =~= spec_capitalize_all(post)[j] by {
                assert(spec_capitalize_all(post)[j] == spec_capitalize(post[j]));
                assert(post[j] == all[j]);
                if j < i {
                    assert(caps.deep_view()[j] == spec_capitalize_all(pre)[j]);
                    assert(spec_capitalize_all(pre)[j] == spec_capitalize(pre[j]));
                } else {
                    assert(caps@[j] == c);
                    assert(c.deep_view() =~= c@);
                }
            }
            assert(caps.deep_view() =~~= spec_capitalize_all(post));
        }
        i += 1;
    }
    proof {
        assert(all.subrange(0, all.len() as int) =~= all);
    }
    join_chars(&caps, ' ')
}

/// The text of a desktop launcher entry for the given short name and
/// executable path.
pub open spec fn spec_desktop_content(name: Seq<char>, exec_path: Seq<char>) -> Seq<char> {
    "[Desktop Entry]\nType=Application\nName="@ + spec_display_name(name) + "\nExec="@
        + exec_path + "\nTerminal=false\nCategories=Application;\nComment=Installed via AN\n"@
}

fn desktop_content(name: &Vec<char>, exec_path: &str) -> (r: String)
    ensures
        r@ == spec_desktop_content(name@, exec_path@),
{
    let title = string_from_chars(&display_name(name));
    let r = String::from_str("[Desktop Entry]\nType=Application\nName=").concat(
        title.as_str(),
    ).concat("\nExec=").concat(exec_path).concat(
        "\nTerminal=false\nCategories=Application;\nComment=Installed via AN\n",
    );
    proof {
        assert(r@ =~= spec_desktop_content(name@, exec_path@));
    }
    r
}

/// The short name an install uses: the custom name when one was given,
/// else the one the artifact name yields.
pub open spec fn spec_install_name(custom: Option<String>, path: Seq<char>) -> Seq<char> {
    match custom {
        Some(n) => n@,
        None => spec_extract_app_name(path),
    }
}

/// Installs a portable binary into the model: fails when the artifact
/// does not exist; otherwise records the artifact in the applications
/// directory, binds the short name to a symlink at its destination
/// (replacing any earlier entry of that name), records the desktop
/// entry when asked for, and returns the filesystem work to perform.
pub fn install_with_options(
    m: &mut SystemModel,
    path: &str,
    path_exists: bool,
    options: InstallOptions,
) -> (r: Result<InstallPlan, AnError>)
    requires
        old(m).wf(),
        path_exists ==> spec_base_name(path@).len() > 0,
    ensures
        final(m).wf(),
        final(m).apps_dir == old(m).apps_dir,
        final(m).bin_dir == old(m).bin_dir,
        final(m).desktop_dir == old(m).desktop_dir,
        final(m).packages == old(m).packages,
        final(m).bundles == old(m).bundles,
        final(m).runtime_present == old(m).runtime_present,
        !path_exists ==> *final(m) == *old(m) && (r matches Err(AnError::FileNotFound { path: p })
            && p@ == path@),
        path_exists ==> r is Ok,
        match r {
            Ok(plan) => {
                &&& plan.app_name@ == spec_install_name(options.name, path@)
                &&& plan.file_name@ == spec_base_name(path@)
                &&& plan.dest_path@ == old(m).apps_dir@ + "/"@ + spec_base_name(path@)
                &&& plan.link_path@ == old(m).bin_dir@ + "/"@ + plan.app_name@
                &&& plan.remove_source == options.remove_source
                &&& (options.desktop_entry <==> plan.desktop_file is Some)
                &&& match plan.desktop_file {
                    Some(d) => d.path@ == old(m).desktop_dir@ + "/"@ + plan.app_name@
                        + ".desktop"@ && d.content@ == spec_desktop_content(
                        plan.app_name@,
                        plan.dest_path@,
                    ),
                    None => true,
                }
                &&& final(m).apps@ == spec_names_add(old(m).apps@, plan.file_name)
                &&& final(m).bin@ == spec_bin_upsert(
                    old(m).bin@,
                    BinItem {
                        name: plan.app_name,
                        entry: BinEntry::Symlink { target: plan.dest_path },
                    },
                )
                &&& final(m).desktop@ == if options.desktop_entry {
                    spec_names_add(old(m).desktop@, plan.app_name)
                } else {
                    old(m).desktop@
                }
            },
            Err(_) => !path_exists,
        },
{
    if !path_exists {
        return Err(AnError::FileNotFound { path: String::from_str(path) });
    }
    let app_name = match options.name {
        Some(n) => n,
        None => extract_app_name(path),
    };
    let file_name = string_from_chars(&base_name_chars(&chars_of(path)));
    let dest_path = join_path(m.apps_dir.as_str(), file_name.as_str());
    let link_path = join_path(m.bin_dir.as_str(), app_name.as_str());

    names_add(&mut m.apps, file_name.clone());
    bin_upsert(
        &mut m.bin,
        BinItem { name: app_name.clone(), entry: BinEntry::Symlink { target: dest_path.clone() } },
    );
    proof {
        lemma_bin_upsert_props(
            old(m).bin@,
            BinItem {
                name: app_name,
                entry: BinEntry::Symlink { target: dest_path },
            },
        );
    }

    let desktop_file = if options.desktop_entry {
        let name_chars = chars_of(app_name.as_str());
        let content = desktop_content(&name_chars, dest_path.as_str());
        let entry_path = String::from_str(m.desktop_dir.as_str()).concat("/").concat(
            app_name.as_str(),
        ).concat(".desktop");
        names_add(&mut m.desktop, app_name.clone());
        Some(DesktopFile { path: entry_path, content })
    } else {
        None
    };

    Ok(
        InstallPlan {
            app_name,
            file_name,
            dest_path,
            link_path,
            remove_source: options.remove_source,
            desktop_file,
        },
    )
}

/// A symlink target is owned by this tool exactly when it lies under
/// the managed applications directory (it is the directory itself or a
/// path below it).
pub open spec fn is_managed_target(target: Seq<char>, dir: Seq<char>) -> bool {
    target == dir || (target.len() > dir.len() && target.subrange(0, dir.len() as int) == dir
        && target[dir.len() as int] == '/')
}

fn managed_target(target: &Vec<char>, dir: &Vec<char>) -> (r: bool)
    ensures
        r == is_managed_target(target@, dir@),
{
    if chars_eq(target, dir) {
        return true;
    }
    target.len() > dir.len() && starts_with(target, dir) && target[dir.len()] == '/'
}

/// One link-directory entry is a managed portable-binary link.
pub open spec fn item_managed(it: BinItem, dir: Seq<char>) -> bool {
    match it.entry {
        BinEntry::Symlink { target } => is_managed_target(target@, dir),
        _ => false,
    }
}

/// The name is bound to a symlink whose target lies under the managed
/// applications directory.
pub open spec fn spec_bin_is_managed(bin: Seq<BinItem>, name: Seq<char>, dir: Seq<char>) -> bool {
    match spec_bin_lookup(bin, name) {
        Some(BinEntry::Symlink { target }) => is_managed_target(target@, dir),
        _ => false,
    }
}

/// Detects a managed portable-binary install of the given name: the
/// name must be a symlink and its target must lie under the managed
/// applications directory, which tells this tool's links from unrelated
/// symlinks of the same name.
pub fn detect(m: &SystemModel, name: &str) -> (r: Option<String>)
    ensures
        r is Some <==> spec_bin_is_managed(m.bin@, name@, m.apps_dir@),
        match r {
            Some(s) => s@ == name@,
            None => true,
        },
{
    let nc = chars_of(name);
    let idx = bin_find_index(&m.bin, &nc);
    proof {
        match idx {
            Some(k) => lemma_bin_lookup_at(m.bin@, name@, k as int),
            None => lemma_bin_lookup_at(m.bin@, name@, m.bin@.len() as int),
        }
    }
    match idx {
        Some(k) => match &m.bin[k].entry {
            BinEntry::Symlink { target } => {
                if managed_target(&chars_of(target.as_str()), &chars_of(m.apps_dir.as_str())) {
                    Some(String::from_str(name))
                } else {
                    None
                }
            },
            _ => None,
        },
        None => None,
    }
}

/// The strings of the applications listing whose full path is the given
/// target, removed.
pub open spec fn spec_remove_target_file(apps: Seq<String>, dir: Seq<char>, target: Seq<char>)
    -> Seq<String>
    decreases apps.len(),
{
    if apps.len() == 0 {
        Seq::<String>::empty()
    } else {
        let rest = spec_remove_target_file(apps.drop_last(), dir, target);
        if dir + "/"@ + apps.last()@ == target {
            rest
        } else {
            rest.push(apps.last())
        }
    }
}

/// Every string the removal keeps is one of the input's; uniqueness
/// carries over.
proof fn lemma_remove_target_props(apps: Seq<String>, dir: Seq<char>, target: Seq<char>)
    requires
        crate::model::unique_names(apps),
    ensures
        crate::model::unique_names(spec_remove_target_file(apps, dir, target)),
        forall|i: int| 0 <= i < spec_remove_target_file(apps, dir, target).len() ==> exists|
            j: int,
        | 0 <= j < apps.len() && apps[j] == #[trigger] spec_remove_target_file(
            apps,
            dir,
            target,
        )[i],
    decreases apps.len(),
{
    if apps.len() > 0 {
        let pre = apps.drop_last();
        assert(crate::model::unique_names(pre)) by {
            assert(forall|i: int| 0 <= i < pre.len() ==> pre[i] == apps[i]);
        }
        lemma_remove_target_props(pre, dir, target);
        let rest = spec_remove_target_file(pre, dir, target);
        let out = spec_remove_target_file(apps, dir, target);
        assert forall|i: int| 0 <= i < out.len() implies exists|j: int|
            0 <= j < apps.len() && apps[j] == #[trigger] out[i] by {
            if dir + "/"@ + apps.last()@ == target || i < rest.len() {
                let j = choose|j: int| 0 <= j < pre.len() && pre[j] == out[i];
                assert(apps[j] == out[i]);
            } else {
                assert(out[i] == apps.last());
                assert(apps[apps.len() - 1] == out[i]);
            }
        }
        if dir + "/"@ + apps.last()@ != target {
            assert forall|i: int, j: int| 0 <= i < j < out.len() implies out[i]@ != out[j]@ by {
                if j == out.len() - 1 {
                    let t = choose|t: int| 0 <= t < pre.len() && pre[t] == out[i];
                    assert(apps[t]@ != apps.last()@);
                }
            }
        }
    }
}

fn apps_remove_target(v: &mut Vec<String>, dir: &Vec<char>, target: &Vec<char>)
    ensures
        final(v)@ == spec_remove_target_file(old(v)@, dir@, target@),
{
    let ghost orig = old(v)@;
    let mut out: Vec<String> = Vec::new();
    let ghost k: int = 0;
    proof {
        assert(orig.subrange(0, 0) =~= Seq::<String>::empty());
        assert(spec_remove_target_file(orig.subrange(0, 0), dir@, target@) =~= Seq::<
            String,
        >::empty());
    }
    while v.len() > 0
        invariant
            orig == old(v)@,
            0 <= k <= orig.len(),
            v@ == orig.subrange(k, orig.len() as int),
            out@ == spec_remove_target_file(orig.subrange(0, k), dir@, target@),
        decreases v@.len(),
    {
        let ghost before = v@;
        let it = v.remove(0);
        proof {
            assert(before[0] == orig[k]);
            assert(orig.subrange(0, k + 1).drop_last() =~= orig.subrange(0, k));
            assert(orig.subrange(0, k + 1).last() == orig[k]);
            assert(v@ =~= orig.subrange(k + 1, orig.len() as int));
        }
        let full = join_path(string_from_chars(dir).as_str(), it.as_str());
        if !chars_eq(&chars_of(full.as_str()), target) {
            out.push(it);
        }
        proof {
            k = k + 1;
        }
    }
    proof {
        assert(orig.subrange(k, orig.len() as int).len() == 0);
        assert(orig.subrange(0, orig.len() as int) =~= orig);
    }
    let mut out = out;
    core::mem::swap(v, &mut out);
}

/// Removes a managed portable binary from the model: fails unless the
/// name is bound to a symlink; otherwise unbinds the name, drops the
/// link's target from the applications listing, drops the desktop
/// entry, and returns the deletions to perform.
pub fn remove(m: &mut SystemModel, name: &str) -> (r: Result<RemovePlan, AnError>)
    requires
        old(m).wf(),
    ensures
        final(m).wf(),
        final(m).apps_dir == old(m).apps_dir,
        final(m).bin_dir == old(m).bin_dir,
        final(m).desktop_dir == old(m).desktop_dir,
        final(m).packages == old(m).packages,
        final(m).bundles == old(m).bundles,
        final(m).runtime_present == old(m).runtime_present,
        r is Ok <==> spec_bin_lookup(old(m).bin@, name@) matches Some(BinEntry::Symlink { .. }),
        match r {
            Ok(plan) => {
                &&& spec_bin_lookup(old(m).bin@, name@) == Some(
                    BinEntry::Symlink { target: plan.target_path },
                )
                &&& plan.link_path@ == old(m).bin_dir@ + "/"@ + name@
                &&& plan.desktop_path@ == old(m).desktop_dir@ + "/"@ + name@ + ".desktop"@
                &&& final(m).bin@ == spec_bin_remove(old(m).bin@, name@)
                &&& final(m).apps@ == spec_remove_target_file(
                    old(m).apps@,
                    old(m).apps_dir@,
                    plan.target_path@,
                )
                &&& final(m).desktop@ == spec_names_remove(old(m).desktop@, name@)
            },
            Err(e) => *final(m) == *old(m) && (e matches AnError::AppNotInstalled { name: n }
                && n@ == name@),
        },
{
    let nc = chars_of(name);
    let idx = bin_find_index(&m.bin, &nc);
    proof {
        match idx {
            Some(k) => lemma_bin_lookup_at(m.bin@, name@, k as int),
            None => lemma_bin_lookup_at(m.bin@, name@, m.bin@.len() as int),
        }
    }
    let is_link = match idx {
        Some(k) => match &m.bin[k].entry {
            BinEntry::Symlink { .. } => true,
            _ => false,
        },
        None => false,
    };
    if !is_link {
        return Err(AnError::AppNotInstalled { name: String::from_str(name) });
    }
    let k = match idx {
        Some(k) => k,
        None => 0,
    };
    let target_path = match &m.bin[k].entry {
        BinEntry::Symlink { target } => target.clone(),
        _ => String::new(),
    };
    let link_path = join_path(m.bin_dir.as_str(), name);
    let desktop_path = String::from_str(m.desktop_dir.as_str()).concat("/").concat(name).concat(
        ".desktop",
    );

    bin_remove(&mut m.bin, &nc);
    proof {
        lemma_bin_remove_props(old(m).bin@, name@);
    }
    let dirc = chars_of(m.apps_dir.as_str());
    let tc = chars_of(target_path.as_str());
    apps_remove_target(&mut m.apps, &dirc, &tc);
    proof {
        lemma_remove_target_props(old(m).apps@, old(m).apps_dir@, target_path@);
    }
    names_remove(&mut m.desktop, &nc);
    proof {
        crate::model::lemma_names_remove_props(old(m).desktop@, name@);
    }
    Ok(RemovePlan { link_path, target_path, desktop_path })
}

/// The names of the managed portable-binary links, in listing order.
pub open spec fn spec_managed_names(bin: Seq<BinItem>, dir: Seq<char>) -> Seq<String>
    decreases bin.len(),
{
    if bin.len() == 0 {
        Seq::<String>::empty()
    } else {
        let rest = spec_managed_names(bin.drop_last(), dir);
        if item_managed(bin.last(), dir) {
            rest.push(bin.last().name)
        } else {
            rest
        }
    }
}

/// Lists the short names of the installed portable binaries, sorted.
pub fn list_installed(m: &SystemModel) -> (r: Vec<String>)
    ensures
        sorted_strings(r@),
        r@.to_multiset() == spec_managed_names(m.bin@, m.apps_dir@).to_multiset(),
{
    let dirc = chars_of(m.apps_dir.as_str());
    let mut found: Vec<String> = Vec::new();
    let mut i: usize = 0;
    proof {
        assert(m.bin@.subrange(0, 0) =~= Seq::<BinItem>::empty());
        assert(found@ =~= spec_managed_names(m.bin@.subrange(0, 0), m.apps_dir@));
    }
    while i < m.bin.len()
        invariant
            i <= m.bin@.len(),
            dirc@ == m.apps_dir@,
            found@ == spec_managed_names(m.bin@.subrange(0, i as int), m.apps_dir@),
        decreases m.bin@.len() - i,
    {
        proof {
            assert(m.bin@.subrange(0, i + 1).drop_last() =~= m.bin@.subrange(0, i as int));
            assert(m.bin@.subrange(0, i + 1).last() == m.bin@[i as int]);
        }
        let keep = match &m.bin[i].entry {
            BinEntry::Symlink { target } => managed_target(&chars_of(target.as_str()), &dirc),
            _ => false,
        };
        if keep {
            found.push(m.bin[i].name.clone());
        }
        i += 1;
    }
    proof {
        assert(m.bin@.subrange(0, m.bin@.len() as int) =~= m.bin@);
    }
    sort_strings(found)
}

/// The destination path an install writes always lies under the managed
/// applications directory.
pub proof fn lemma_dest_is_managed(dir: Seq<char>, file_name: Seq<char>)
    ensures
        is_managed_target(dir + "/"@ + file_name, dir),
{
    reveal_strlit("/");
    let t = dir + "/"@ + file_name;
    assert(t.subrange(0, dir.len() as int) =~= dir);
    assert(t[dir.len() as int] == '/');
}

/// Round trip, first half: right after an install of a short name, the
/// detect probe recognises that name. The install's contract binds the
/// name to a symlink whose target is the copied artifact's destination;
/// that destination lies under the managed applications directory.
pub proof fn lemma_install_then_detect(
    bin: Seq<BinItem>,
    item: BinItem,
    dir: Seq<char>,
    target: String,
    file_name: Seq<char>,
)
    requires
        unique_bin_names(bin),
        item.entry == (BinEntry::Symlink { target }),
        target@ == dir + "/"@ + file_name,
    ensures
        spec_bin_is_managed(spec_bin_upsert(bin, item), item.name@, dir),
{
    lemma_bin_upsert_props(bin, item);
    lemma_dest_is_managed(dir, file_name);
}

/// Round trip, second half: right after a removal of a short name, the
/// detect probe no longer recognises that name.
pub proof fn lemma_remove_then_not_detected(bin: Seq<BinItem>, name: Seq<char>, dir: Seq<char>)
    requires
        unique_bin_names(bin),
    ensures
        !spec_bin_is_managed(spec_bin_remove(bin, name), name, dir),
{
    lemma_bin_remove_props(bin, name);
}

/// Round trip, third part: an install of a fresh short name grows the
/// set of managed names by exactly one, so N installs of distinct names
/// starting from an empty link directory list N names (and the listing
/// is sorted by `list_installed`'s own contract).
pub proof fn lemma_install_grows_list(
    bin: Seq<BinItem>,
    item: BinItem,
    dir: Seq<char>,
    target: String,
    file_name: Seq<char>,
)
    requires
        unique_bin_names(bin),
        spec_bin_lookup(bin, item.name@) is None,
        item.entry == (BinEntry::Symlink { target }),
        target@ == dir + "/"@ + file_name,
    ensures
        spec_managed_names(spec_bin_upsert(bin, item), dir).len() == spec_managed_names(
            bin,
            dir,
        ).len() + 1,
{
    crate::model::lemma_bin_lookup_some(bin, item.name@);
    lemma_bin_upsert_at(bin, item, bin.len() as int);
    assert(spec_bin_upsert(bin, item) == bin.push(item));
    assert(bin.push(item).drop_last() =~= bin);
    lemma_dest_is_managed(dir, file_name);
    assert(item_managed(item, dir));
}

/// A sequence of installs applied to a link directory, left to right.
pub open spec fn spec_install_all(bin: Seq<BinItem>, items: Seq<BinItem>) -> Seq<BinItem>
    decreases items.len(),
{
    if items.len() == 0 {
        bin
    } else {
        spec_install_all(spec_bin_upsert(bin, items[0]), items.drop_first())
    }
}

/// One managed install under a fresh name grows the managed set by
/// one.
proof fn lemma_managed_fresh_upsert_len(bin: Seq<BinItem>, item: BinItem, dir: Seq<char>)
    requires
        unique_bin_names(bin),
        spec_bin_lookup(bin, item.name@) is None,
        item_managed(item, dir),
    ensures
        spec_managed_names(spec_bin_upsert(bin, item), dir).len() == spec_managed_names(
            bin,
            dir,
        ).len() + 1,
{
    crate::model::lemma_bin_lookup_some(bin, item.name@);
    lemma_bin_upsert_at(bin, item, bin.len() as int);
    assert(spec_bin_upsert(bin, item) == bin.push(item));
    assert(bin.push(item).drop_last() =~= bin);
}

/// Round trip, in numbers: installing any number of portable binaries
/// under fresh, pairwise distinct names grows the managed-name listing
/// by exactly that number; so from an empty link directory, N installs
/// list N names (sorted, by `list_installed`'s own contract).
pub proof fn lemma_fresh_installs_count(bin: Seq<BinItem>, items: Seq<BinItem>, dir: Seq<char>)
    requires
        unique_bin_names(bin),
        forall|i: int, j: int| 0 <= i < j < items.len() ==> items[i].name@ != items[j].name@,
        forall|i: int| 0 <= i < items.len() ==> spec_bin_lookup(
            bin,
            #[trigger] items[i].name@,
        ) is None,
        forall|i: int| 0 <= i < items.len() ==> item_managed(#[trigger] items[i], dir),
    ensures
        spec_managed_names(spec_install_all(bin, items), dir).len() == spec_managed_names(
            bin,
            dir,
        ).len() + items.len(),
    decreases items.len(),
{
    if items.len() > 0 {
        let first = items[0];
        let rest = items.drop_first();
        let next = spec_bin_upsert(bin, first);
        lemma_managed_fresh_upsert_len(bin, first, dir);
        lemma_bin_upsert_props(bin, first);
        assert forall|i: int| 0 <= i < rest.len() implies spec_bin_lookup(
            next,
            #[trigger] rest[i].name@,
        ) is None by {
            assert(rest[i] == items[i + 1]);
            assert(rest[i].name@ != first.name@);
        }
        assert(forall|i: int| 0 <= i < rest.len() ==> #[trigger] rest[i] == items[i + 1]);
        lemma_fresh_installs_count(next, rest, dir);
    }
}

/// How many entries of the listing have the given name.
pub open spec fn spec_count_name(bin: Seq<BinItem>, name: Seq<char>) -> nat
    decreases bin.len(),
{
    if bin.len() == 0 {
        0
    } else if bin[0].name@ == name {
        1 + spec_count_name(bin.drop_first(), name)
    } else {
        spec_count_name(bin.drop_first(), name)
    }
}

proof fn lemma_count_zero(bin: Seq<BinItem>, name: Seq<char>)
    requires
        forall|i: int| 0 <= i < bin.len() ==> bin[i].name@ != name,
    ensures
        spec_count_name(bin, name) == 0,
    decreases bin.len(),
{
    if bin.len() > 0 {
        assert(forall|i: int| 0 <= i < bin.drop_first().len() ==> bin.drop_first()[i]
            == bin[i + 1]);
        lemma_count_zero(bin.drop_first(), name);
    }
}

proof fn lemma_upsert_count_one(bin: Seq<BinItem>, item: BinItem)
    requires
        unique_bin_names(bin),
    ensures
        spec_count_name(spec_bin_upsert(bin, item), item.name@) == 1,
    decreases bin.len(),
{
    if bin.len() == 0 {
        assert(spec_bin_upsert(bin, item) == seq![item]);
        assert(seq![item].drop_first() =~= Seq::<BinItem>::empty());
        assert(spec_count_name(Seq::<BinItem>::empty(), item.name@) == 0);
        assert(spec_count_name(seq![item], item.name@) == 1 + spec_count_name(
            seq![item].drop_first(),
            item.name@,
        ));
    } else if bin[0].name@ == item.name@ {
        let out = seq![item] + bin.drop_first();
        assert(spec_bin_upsert(bin, item) == out);
        assert(out[0] == item);
        assert(out.drop_first() =~= bin.drop_first());
        assert forall|i: int| 0 <= i < bin.drop_first().len() implies bin.drop_first()[i].name@
            != item.name@ by {
            assert(bin.drop_first()[i] == bin[i + 1]);
        }
        lemma_count_zero(bin.drop_first(), item.name@);
        assert(spec_count_name(out, item.name@) == 1 + spec_count_name(
            out.drop_first(),
            item.name@,
        ));
    } else {
        assert(forall|i: int| 0 <= i < bin.drop_first().len() ==> bin.drop_first()[i]
            == bin[i + 1]);
        lemma_upsert_count_one(bin.drop_first(), item);
        let sub = spec_bin_upsert(bin.drop_first(), item);
        let out = seq![bin[0]] + sub;
        assert(spec_bin_upsert(bin, item) == out);
        assert(out[0] == bin[0]);
        assert(out.drop_first() =~= sub);
        assert(spec_count_name(out, item.name@) == spec_count_name(
            out.drop_first(),
            item.name@,
        ));
    }
}

/// Overwrite is idempotent: installing the same short name twice leaves
/// exactly one entry of that name in the link directory, and it is the
/// second install's symlink.
pub proof fn lemma_reinstall_overwrites(bin: Seq<BinItem>, first: BinItem, second: BinItem)
    requires
        unique_bin_names(bin),
        first.name@ == second.name@,
    ensures
        spec_count_name(
            spec_bin_upsert(spec_bin_upsert(bin, first), second),
            second.name@,
        ) == 1,
        spec_bin_lookup(spec_bin_upsert(spec_bin_upsert(bin, first), second), second.name@)
            == Some(second.entry),
{
    lemma_bin_upsert_props(bin, first);
    lemma_bin_upsert_props(spec_bin_upsert(bin, first), second);
    lemma_upsert_count_one(spec_bin_upsert(bin, first), second);
}

/// Installs with the default options.
pub fn install(m: &mut SystemModel, path: &str, path_exists: bool) -> (r: Result<
    InstallPlan,
    AnError,
>)
    requires
        old(m).wf(),
        path_exists ==> spec_base_name(path@).len() > 0,
    ensures
        final(m).wf(),
        !path_exists ==> *final(m) == *old(m) && r is Err,
        path_exists ==> r is Ok,
        match r {
            Ok(plan) => {
                &&& plan.app_name@ == spec_extract_app_name(path@)
                &&& !plan.remove_source
                &&& plan.desktop_file is None
                &&& final(m).apps@ == spec_names_add(old(m).apps@, plan.file_name)
                &&& final(m).bin@ == spec_bin_upsert(
                    old(m).bin@,
                    BinItem {
                        name: plan.app_name,
                        entry: BinEntry::Symlink { target: plan.dest_path },
                    },
                )
                &&& final(m).desktop@ == old(m).desktop@
            },
            Err(_) => !path_exists,
        },
{
    install_with_options(m, path, path_exists, InstallOptions::default())
}

} // verus!
