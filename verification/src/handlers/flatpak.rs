//! The sandboxed-bundle handler.
//!
//! Bundles are installed and removed by the sandbox runtime tool; this
//! module holds what the core decides itself: parsing the runtime's
//! list output, deriving alias names, generating wrapper scripts, and
//! recognising the wrappers it owns before deleting them.

use vstd::prelude::*;
use crate::model::{SystemModel, BinEntry, BinItem, spec_bin_upsert, bin_upsert};
use crate::text::{
    chars_of, contains_seq, seq_contains, eq_ignore_case, eq_ignore_case_exec, lower_chars,
    lower_seq, split_chars, spec_split, string_from_chars,
};

verus! {

/// One installed sandboxed bundle: its identifier and display name.
#[derive(Debug)]
pub struct FlatpakApp {
    pub id: String,
    pub name: String,
}

impl Clone for FlatpakApp {
    fn clone(&self) -> (r: Self)
        ensures
            r == *self,
    {
        FlatpakApp { id: self.id.clone(), name: self.name.clone() }
    }
}

/// Whether the sandbox runtime is present (it answered a version
/// query when the model was built).
pub fn is_installed(m: &SystemModel) -> (r: bool)
    ensures
        r == m.runtime_present,
{
    m.runtime_present
}

/// What one line of the runtime's list output yields: the first two
/// tab-separated columns, or, for single-column output, the line as
/// both identifier and name; empty lines yield nothing.
pub open spec fn spec_parse_line(line: Seq<char>) -> Option<(Seq<char>, Seq<char>)> {
    let parts = spec_split(line, seq!['\t']);
    if parts.len() >= 2 {
        Some((parts[0], parts[1]))
    } else if line.len() > 0 {
        Some((line, line))
    } else {
        None
    }
}

pub open spec fn spec_parse_apps(lines: Seq<Seq<char>>) -> Seq<(Seq<char>, Seq<char>)>
    decreases lines.len(),
{
    if lines.len() == 0 {
        Seq::<(Seq<char>, Seq<char>)>::empty()
    } else {
        let rest = spec_parse_apps(lines.drop_last());
        match spec_parse_line(lines.last()) {
            Some(p) => rest.push(p),
            None => rest,
        }
    }
}

/// The identifier and name texts of a bundle list.
pub open spec fn app_views(s: Seq<FlatpakApp>) -> Seq<(Seq<char>, Seq<char>)> {
    s.map_values(|a: FlatpakApp| (a.id@, a.name@))
}

/// Parses the runtime's newline-separated, tab-columned list output.
pub fn parse_app_list(output: &str) -> (r: Vec<FlatpakApp>)
    ensures
        app_views(r@) == spec_parse_apps(spec_split(output@, seq!['\n'])),
{
    let oc = chars_of(output);
    let mut nl: Vec<char> = Vec::new();
    nl.push('\n');
    proof {
        assert(nl@ =~= seq!['\n']);
    }
    let mut tab: Vec<char> = Vec::new();
    tab.push('\t');
    proof {
        assert(tab@ =~= seq!['\t']);
    }
    let lines = split_chars(&oc, &nl);
    let ghost all = lines.deep_view();
    let mut out: Vec<FlatpakApp> = Vec::new();
    let mut i: usize = 0;
    proof {
        assert(all.subrange(0, 0) =~= Seq::<Seq<char>>::empty());
        assert(app_views(out@) =~~= spec_parse_apps(all.subrange(0, 0)));
    }
    while i < lines.len()
        invariant
            i <= lines@.len(),
            lines.deep_view() == all,
            tab@ == seq!['\t'],
            app_views(out@) == spec_parse_apps(all.subrange(0, i as int)),
        decreases lines@.len() - i,
    {
        let ghost pre = all.subrange(0, i as int);
        let ghost post = all.subrange(0, i + 1);
        proof {
            assert(post.drop_last() =~= pre);
            assert(post.last() == all[i as int]);
            assert(all[i as int] == lines@[i as int]@);
        }
        let line = &lines[i];
        let parts = split_chars(line, &tab);
        let ghost pv = parts.deep_view();
        if parts.len() >= 2 {
            proof {
                assert(pv[0] == parts@[0]@);
                assert(pv[1] == parts@[1]@);
            }
            let app = FlatpakApp {
                id: string_from_chars(&parts[0]),
                name: string_from_chars(&parts[1]),
            };
            out.push(app);
            proof {
                assert(app_views(out@) =~~= spec_parse_apps(post));
            }
        } else if line.len() > 0 {
            let app = FlatpakApp { id: string_from_chars(line), name: string_from_chars(line) };
            out.push(app);
            proof {
                assert(app_views(out@) =~~= spec_parse_apps(post));
            }
        } else {
            proof {
                assert(app_views(out@) =~~= spec_parse_apps(post));
            }
        }
        i += 1;
    }
    proof {
        assert(all.subrange(0, all.len() as int) =~= all);
    }
    out
}

/// The text of the wrapper script that aliases a bundle: it execs the
/// runtime against the bundle identifier, forwarding all arguments, and
/// carries the ownership marker and the identifier for later
/// recognition.
pub open spec fn spec_wrapper_script(app_id: Seq<char>) -> Seq<char> {
    "#!/bin/bash\n# AN-generated wrapper for "@ + app_id + "\nexec flatpak run "@ + app_id
        + " \"$@\"\n"@
}

/// The file a wrapper-creation asks the caller to write and mark
/// executable.
pub struct WrapperFile {
    pub path: String,
    pub name: String,
    pub content: String,
}

/// Records a wrapper script for the bundle under the given alias name
/// in the model, and returns the file to write.
pub fn create_wrapper(m: &mut SystemModel, app_id: &str, name: &str) -> (r: WrapperFile)
    ensures
        r.path@ == old(m).bin_dir@ + "/"@ + name@,
        r.content@ == spec_wrapper_script(app_id@),
        final(m).bin@ == spec_bin_upsert(
            old(m).bin@,
            BinItem { name: r.name, entry: BinEntry::Script { content: r.content } },
        ),
        r.name@ == name@,
        final(m).apps_dir == old(m).apps_dir,
        final(m).bin_dir == old(m).bin_dir,
        final(m).desktop_dir == old(m).desktop_dir,
        final(m).apps == old(m).apps,
        final(m).desktop == old(m).desktop,
        final(m).packages == old(m).packages,
        final(m).bundles == old(m).bundles,
        final(m).runtime_present == old(m).runtime_present,
{
    let content = String::from_str("#!/bin/bash\n# AN-generated wrapper for ").concat(
        app_id,
    ).concat("\nexec flatpak run ").concat(app_id).concat(" \"$@\"\n");
    proof {
        assert(content@ =~= spec_wrapper_script(app_id@));
    }
    let path = crate::paths::join_path(m.bin_dir.as_str(), name);
    let alias = String::from_str(name);
    bin_upsert(
        &mut m.bin,
        BinItem { name: alias.clone(), entry: BinEntry::Script { content: content.clone() } },
    );
    WrapperFile { path, name: alias, content }
}

/// A script is one of this tool's wrappers for the given bundle when
/// it carries both the ownership marker and the bundle identifier;
/// only such a script may be deleted on the bundle's removal.
pub open spec fn spec_owned_wrapper(content: Seq<char>, app_id: Seq<char>) -> bool {
    seq_contains(content, "AN-generated wrapper"@) && seq_contains(content, app_id)
}

/// Checks the ownership marker and bundle identifier in a script body.
pub fn is_owned_wrapper(content: &str, app_id: &str) -> (r: bool)
    ensures
        r == spec_owned_wrapper(content@, app_id@),
{
    let cc = chars_of(content);
    contains_seq(&cc, &chars_of("AN-generated wrapper")) && contains_seq(&cc, &chars_of(app_id))
}

/// The alias name guessed from a bundle identifier at removal time:
/// its last dot-separated segment, lower-cased.
pub open spec fn spec_wrapper_name_guess(app_id: Seq<char>) -> Seq<char> {
    lower_seq(spec_split(app_id, seq!['.']).last())
}

pub fn wrapper_name_guess(app_id: &str) -> (r: String)
    ensures
        r@ == spec_wrapper_name_guess(app_id@),
{
    let idc = chars_of(app_id);
    let mut dot: Vec<char> = Vec::new();
    dot.push('.');
    proof {
        assert(dot@ =~= seq!['.']);
    }
    let parts = split_chars(&idc, &dot);
    let ghost all = parts.deep_view();
    proof {
        assert(all.last() == parts@[parts@.len() - 1]@);
    }
    string_from_chars(&lower_chars(&parts[parts.len() - 1]))
}

/// A bundle answers for a short name when the whole identifier or its
/// last dot-separated segment matches it, case-insensitively.
pub open spec fn spec_flatpak_match(id: Seq<char>, name: Seq<char>) -> bool {
    eq_ignore_case(id, name) || eq_ignore_case(spec_split(id, seq!['.']).last(), name)
}

/// The first installed bundle that answers for the name.
pub open spec fn spec_flatpak_find(bundles: Seq<FlatpakApp>, name: Seq<char>) -> Option<
    FlatpakApp,
>
    decreases bundles.len(),
{
    if bundles.len() == 0 {
        None
    } else if spec_flatpak_match(bundles[0].id@, name) {
        Some(bundles[0])
    } else {
        spec_flatpak_find(bundles.drop_first(), name)
    }
}

/// Detects an installed bundle by short name: the first whose
/// identifier, whole or by its last segment, matches the name
/// case-insensitively; returns that identifier.
pub fn detect(m: &SystemModel, name: &str) -> (r: Option<String>)
    ensures
        r is Some <==> spec_flatpak_find(m.bundles@, name@) is Some,
        match r {
            Some(s) => spec_flatpak_find(m.bundles@, name@) matches Some(a) && s@ == a.id@,
            None => true,
        },
{
    let nc = chars_of(name);
    let mut dot: Vec<char> = Vec::new();
    dot.push('.');
    proof {
        assert(dot@ =~= seq!['.']);
    }
    let ghost all = m.bundles@;
    let mut i: usize = 0;
    proof {
        assert(all.subrange(0, all.len() as int) =~= all);
    }
    while i < m.bundles.len()
        invariant
            i <= all.len(),
            all == m.bundles@,
            nc@ == name@,
            dot@ == seq!['.'],
            spec_flatpak_find(all, name@) == spec_flatpak_find(
                all.subrange(i as int, all.len() as int),
                name@,
            ),
        decreases all.len() - i,
    {
        let ghost tail = all.subrange(i as int, all.len() as int);
        proof {
            assert(tail[0] == all[i as int]);
            assert(tail.drop_first() =~= all.subrange(i + 1, all.len() as int));
        }
        let idc = chars_of(m.bundles[i].id.as_str());
        let whole = eq_ignore_case_exec(&idc, &nc);
        let parts = split_chars(&idc, &dot);
        let ghost pv = parts.deep_view();
        proof {
            assert(pv.last() == parts@[parts@.len() - 1]@);
        }
        let last_part = eq_ignore_case_exec(&parts[parts.len() - 1], &nc);
        if whole || last_part {
            return Some(m.bundles[i].id.clone());
        }
        i += 1;
    }
    proof {
        assert(all.subrange(all.len() as int, all.len() as int).len() == 0);
    }
    None
}

} // verus!
