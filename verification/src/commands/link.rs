//! The link command: aliases for installed sandboxed bundles.
//!
//! Every installed bundle is given a short command name derived from its
//! reverse-domain identifier, and a wrapper script is planned for each
//! name that does not collide with an existing system binary.

use vstd::prelude::*;
use crate::handlers::flatpak::FlatpakApp;
use crate::text::{
    chars_of, chars_eq, ends_with, lower_chars, lower_seq, seq_ends_with, split_chars, spec_split,
    string_from_chars,
};

verus! {

/// A generic trailing word that reverse-domain identifiers often end
/// with and that carries no name information.
pub open spec fn is_generic_suffix(s: Seq<char>) -> bool {
    ||| s == "client"@
    ||| s == "app"@
    ||| s == "desktop"@
}

/// Stripping the first generic suffix (tried in a fixed order) off the
/// end of a name, when doing so leaves a non-empty remainder.
pub open spec fn spec_strip_generic(n: Seq<char>) -> Seq<char> {
    if seq_ends_with(n, "client"@) && n.len() > "client"@.len() {
        n.subrange(0, n.len() - "client"@.len())
    } else if seq_ends_with(n, "app"@) && n.len() > "app"@.len() {
        n.subrange(0, n.len() - "app"@.len())
    } else if seq_ends_with(n, "desktop"@) && n.len() > "desktop"@.len() {
        n.subrange(0, n.len() - "desktop"@.len())
    } else {
        n
    }
}

/// The short command name a bundle identifier yields: the last
/// dot-separated segment, lower-cased; when that segment is itself a
/// generic suffix, the one before it; otherwise with one generic suffix
/// and then one trailing hyphen stripped. A name that reduces to
/// nothing falls back to a fixed name: the result is never empty.
pub open spec fn spec_normalize_name(id: Seq<char>) -> Seq<char> {
    let parts = spec_split(id, seq!['.']);
    let lower = lower_seq(parts.last());
    let candidate = if is_generic_suffix(lower) && parts.len() > 1 {
        lower_seq(parts[parts.len() - 2])
    } else {
        let stripped = spec_strip_generic(lower);
        if stripped.len() > 0 && stripped.last() == '-' {
            stripped.subrange(0, stripped.len() - 1)
        } else {
            stripped
        }
    };
    if candidate.len() == 0 {
        "app"@
    } else {
        candidate
    }
}

fn strip_generic(n: Vec<char>) -> (r: Vec<char>)
    ensures
        r@ == spec_strip_generic(n@),
{
    let mut n = n;
    let client = chars_of("client");
    let app = chars_of("app");
    let desktop = chars_of("desktop");
    if ends_with(&n, &client) && n.len() > client.len() {
        let keep = n.len() - client.len();
        n.truncate(keep);
    } else if ends_with(&n, &app) && n.len() > app.len() {
        let keep = n.len() - app.len();
        n.truncate(keep);
    } else if ends_with(&n, &desktop) && n.len() > desktop.len() {
        let keep = n.len() - desktop.len();
        n.truncate(keep);
    }
    n
}

/// Derives the short command name from a bundle identifier.
pub fn normalize_name(app_id: &str) -> (r: String)
    ensures
        r@ == spec_normalize_name(app_id@),
        r@.len() > 0,
{
    proof {
        reveal_strlit("app");
    }
    let idc = chars_of(app_id);
    let mut seps: Vec<char> = Vec::new();
    seps.push('.');
    proof {
        assert(seps@ =~= seq!['.']);
    }
    let parts = split_chars(&idc, &seps);
    let ghost all = parts.deep_view();
    let last = &parts[parts.len() - 1];
    proof {
        assert(all.last() == last@);
    }
    let lower = lower_chars(last);
    let generic = chars_eq(&lower, &chars_of("client")) || chars_eq(&lower, &chars_of("app"))
        || chars_eq(&lower, &chars_of("desktop"));
    let candidate: Vec<char> = if generic && parts.len() > 1 {
        proof {
            assert(all[all.len() - 2] == parts@[parts@.len() - 2]@);
        }
        lower_chars(&parts[parts.len() - 2])
    } else {
        let mut stripped = strip_generic(lower);
        if stripped.len() > 0 && stripped[stripped.len() - 1] == '-' {
            let keep = stripped.len() - 1;
            stripped.truncate(keep);
        }
        stripped
    };
    if candidate.len() == 0 {
        String::from_str("app")
    } else {
        string_from_chars(&candidate)
    }
}

/// One alias to create: the bundle and the short name chosen for it.
pub struct LinkJob {
    pub id: String,
    pub name: String,
}

/// The identifier and alias texts of a list of jobs.
pub open spec fn job_views(s: Seq<LinkJob>) -> Seq<(Seq<char>, Seq<char>)> {
    s.map_values(|j: LinkJob| (j.id@, j.name@))
}

/// The aliases the link command creates: one per installed bundle, in
/// order, under the bundle's normalised name — except the bundles
/// whose name collides with a system binary, which are skipped.
pub open spec fn spec_link_jobs(apps: Seq<FlatpakApp>, conflicts: Seq<bool>) -> Seq<
    (Seq<char>, Seq<char>),
>
    decreases apps.len(),
{
    if apps.len() == 0 {
        Seq::<(Seq<char>, Seq<char>)>::empty()
    } else {
        let rest = spec_link_jobs(apps.drop_last(), conflicts.drop_last());
        if conflicts.last() {
            rest
        } else {
            rest.push((apps.last().id@, spec_normalize_name(apps.last().id@)))
        }
    }
}

/// The short names the installed bundles normalise to, in order; the
/// caller checks each for a collision with a system binary.
pub fn link_names(apps: &Vec<FlatpakApp>) -> (r: Vec<String>)
    ensures
        r@.len() == apps@.len(),
        forall|i: int| 0 <= i < r@.len() ==> r@[i]@ == spec_normalize_name(apps@[i].id@),
{
    let mut r: Vec<String> = Vec::new();
    let mut i: usize = 0;
    while i < apps.len()
        invariant
            i <= apps@.len(),
            r@.len() == i,
            forall|j: int| 0 <= j < i ==> r@[j]@ == spec_normalize_name(apps@[j].id@),
        decreases apps@.len() - i,
    {
        r.push(normalize_name(apps[i].id.as_str()));
        i += 1;
    }
    r
}

/// Runs the link command's decisions: plans the aliases to create,
/// given which names collide. A collision skips the alias, it never
/// fails the command.
pub fn run(apps: &Vec<FlatpakApp>, conflicts: &Vec<bool>) -> (r: Vec<LinkJob>)
    requires
        conflicts@.len() == apps@.len(),
    ensures
        job_views(r@) == spec_link_jobs(apps@, conflicts@),
{
    let mut r: Vec<LinkJob> = Vec::new();
    let mut i: usize = 0;
    proof {
        assert(apps@.subrange(0, 0) =~= Seq::<FlatpakApp>::empty());
        assert(job_views(r@) =~~= spec_link_jobs(apps@.subrange(0, 0), conflicts@.subrange(0, 0)));
    }
    while i < apps.len()
        invariant
            i <= apps@.len(),
            conflicts@.len() == apps@.len(),
            job_views(r@) == spec_link_jobs(
                apps@.subrange(0, i as int),
                conflicts@.subrange(0, i as int),
            ),
        decreases apps@.len() - i,
    {
        proof {
            assert(apps@.subrange(0, i + 1).drop_last() =~= apps@.subrange(0, i as int));
            assert(conflicts@.subrange(0, i + 1).drop_last() =~= conflicts@.subrange(0, i as int));
            assert(apps@.subrange(0, i + 1).last() == apps@[i as int]);
            assert(conflicts@.subrange(0, i + 1).last() == conflicts@[i as int]);
        }
        if !conflicts[i] {
            let name = normalize_name(apps[i].id.as_str());
            r.push(LinkJob { id: apps[i].id.clone(), name });
            proof {
                assert(job_views(r@) =~~= spec_link_jobs(
                    apps@.subrange(0, i + 1),
                    conflicts@.subrange(0, i + 1),
                ));
            }
        } else {
            proof {
                assert(job_views(r@) =~~= spec_link_jobs(
                    apps@.subrange(0, i + 1),
                    conflicts@.subrange(0, i + 1),
                ));
            }
        }
        i += 1;
    }
    proof {
        assert(apps@.subrange(0, apps@.len() as int) =~= apps@);
        assert(conflicts@.subrange(0, conflicts@.len() as int) =~= conflicts@);
    }
    r
}

} // verus!
