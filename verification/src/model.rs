//! The model of the system state the handlers act on.
//!
//! The managed link directory, the managed applications directory and
//! the desktop-entry directory are the only filesystem state the core
//! owns; the installed native packages and sandboxed bundles are the
//! state the OS tools own. This module holds all of it as plain values.
//! The surrounding binary probes the real system to build a model,
//! hands it to the core, and replays the changes the core makes.

use vstd::prelude::*;
use crate::handlers::flatpak::FlatpakApp;

verus! {

/// What a name in the managed link directory points at.
#[derive(Debug)]
pub enum BinEntry {
    /// A symbolic link to the given target path.
    Symlink { target: String },
    /// A file whose text is known (a wrapper script).
    Script { content: String },
    /// Any other file.
    Regular,
}

/// One entry of the managed link directory.
#[derive(Debug)]
pub struct BinItem {
    pub name: String,
    pub entry: BinEntry,
}

/// The state the handlers read and change.
#[derive(Debug)]
pub struct SystemModel {
    /// The managed applications directory (portable binaries live here).
    pub apps_dir: String,
    /// The managed link directory (symlinks and wrapper scripts).
    pub bin_dir: String,
    /// The desktop-entry directory.
    pub desktop_dir: String,
    /// Contents of the managed link directory.
    pub bin: Vec<BinItem>,
    /// File names present in the managed applications directory.
    pub apps: Vec<String>,
    /// Short names that have a desktop entry.
    pub desktop: Vec<String>,
    /// Names of installed native packages.
    pub packages: Vec<String>,
    /// Installed sandboxed bundles.
    pub bundles: Vec<FlatpakApp>,
    /// Whether the sandbox runtime answers a version query.
    pub runtime_present: bool,
}

/// A directory listing holds each name at most once.
pub open spec fn unique_bin_names(bin: Seq<BinItem>) -> bool {
    forall|i: int, j: int| 0 <= i < j < bin.len() ==> bin[i].name@ != bin[j].name@
}

pub open spec fn unique_names(v: Seq<String>) -> bool {
    forall|i: int, j: int| 0 <= i < j < v.len() ==> v[i]@ != v[j]@
}

impl SystemModel {
    /// The three directories are real directory listings: no name
    /// occurs twice.
    pub open spec fn wf(&self) -> bool {
        unique_bin_names(self.bin@) && unique_names(self.apps@) && unique_names(self.desktop@)
    }
}

/// The entry the given name points at, if the name is present.
pub open spec fn spec_bin_lookup(bin: Seq<BinItem>, name: Seq<char>) -> Option<BinEntry>
    decreases bin.len(),
{
    if bin.len() == 0 {
        None
    } else if bin[0].name@ == name {
        Some(bin[0].entry)
    } else {
        spec_bin_lookup(bin.drop_first(), name)
    }
}

/// The listing with the item's name bound to the item: an existing
/// entry of that name is replaced in place, a fresh name is appended.
pub open spec fn spec_bin_upsert(bin: Seq<BinItem>, item: BinItem) -> Seq<BinItem>
    decreases bin.len(),
{
    if bin.len() == 0 {
        seq![item]
    } else if bin[0].name@ == item.name@ {
        seq![item] + bin.drop_first()
    } else {
        seq![bin[0]] + spec_bin_upsert(bin.drop_first(), item)
    }
}

/// The listing with every entry of the given name removed.
pub open spec fn spec_bin_remove(bin: Seq<BinItem>, name: Seq<char>) -> Seq<BinItem>
    decreases bin.len(),
{
    if bin.len() == 0 {
        Seq::<BinItem>::empty()
    } else {
        let rest = spec_bin_remove(bin.drop_last(), name);
        if bin.last().name@ == name {
            rest
        } else {
            rest.push(bin.last())
        }
    }
}

pub open spec fn contains_name(v: Seq<String>, n: Seq<char>) -> bool {
    exists|i: int| 0 <= i < v.len() && v[i]@ == n
}

/// The list with the string added, unless a string of the same text is
/// already there.
pub open spec fn spec_names_add(v: Seq<String>, s: String) -> Seq<String> {
    if contains_name(v, s@) {
        v
    } else {
        v.push(s)
    }
}

/// The list with every string of the given text removed.
pub open spec fn spec_names_remove(v: Seq<String>, n: Seq<char>) -> Seq<String>
    decreases v.len(),
{
    if v.len() == 0 {
        Seq::<String>::empty()
    } else {
        let rest = spec_names_remove(v.drop_last(), n);
        if v.last()@ == n {
            rest
        } else {
            rest.push(v.last())
        }
    }
}

/// A lookup finds the entry exactly when some entry has the name; under
/// uniqueness it is the only one.
pub proof fn lemma_bin_lookup_some(bin: Seq<BinItem>, name: Seq<char>)
    ensures
        spec_bin_lookup(bin, name) is Some <==> exists|i: int|
            0 <= i < bin.len() && bin[i].name@ == name,
        match spec_bin_lookup(bin, name) {
            Some(e) => exists|i: int|
                0 <= i < bin.len() && bin[i].name@ == name && bin[i].entry == e,
            None => true,
        },
    decreases bin.len(),
{
    if bin.len() > 0 {
        lemma_bin_lookup_some(bin.drop_first(), name);
        if bin[0].name@ == name {
            assert(bin[0].name@ == name && bin[0].entry == bin[0].entry);
        } else {
            let rest = bin.drop_first();
            if spec_bin_lookup(rest, name) is Some {
                let e = spec_bin_lookup(rest, name)->Some_0;
                let i = choose|i: int|
                    0 <= i < rest.len() && rest[i].name@ == name && rest[i].entry == e;
                assert(bin[i + 1].name@ == name && bin[i + 1].entry == e);
            } else {
                assert forall|i: int|
                    0 <= i < bin.len() implies !(bin[i].name@ == name) by {
                    if i > 0 {
                        assert(rest[i - 1].name@ != name);
                    }
                }
            }
        }
    }
}

/// What upsert does position by position: the first entry of the name
/// is replaced, or the item lands at the end.
pub proof fn lemma_bin_upsert_at(bin: Seq<BinItem>, item: BinItem, k: int)
    requires
        0 <= k <= bin.len(),
        forall|j: int| 0 <= j < k ==> bin[j].name@ != item.name@,
        k < bin.len() ==> bin[k].name@ == item.name@,
    ensures
        spec_bin_upsert(bin, item) == if k < bin.len() {
            bin.update(k, item)
        } else {
            bin.push(item)
        },
    decreases bin.len(),
{
    if bin.len() == 0 {
        assert(spec_bin_upsert(bin, item) =~= bin.push(item));
    } else if k == 0 {
        assert(spec_bin_upsert(bin, item) =~= bin.update(0, item));
    } else {
        lemma_bin_upsert_at(bin.drop_first(), item, k - 1);
        if k < bin.len() {
            assert(seq![bin[0]] + bin.drop_first().update(k - 1, item) =~= bin.update(k, item));
        } else {
            assert(seq![bin[0]] + bin.drop_first().push(item) =~= bin.push(item));
        }
    }
}

/// Upsert keeps the listing well formed, binds the name to the item,
/// and touches no other name.
pub proof fn lemma_bin_upsert_props(bin: Seq<BinItem>, item: BinItem)
    requires
        unique_bin_names(bin),
    ensures
        unique_bin_names(spec_bin_upsert(bin, item)),
        spec_bin_lookup(spec_bin_upsert(bin, item), item.name@) == Some(item.entry),
        forall|n: Seq<char>| n != item.name@ ==> spec_bin_lookup(spec_bin_upsert(bin, item), n)
            == spec_bin_lookup(bin, n),
    decreases bin.len(),
{
    if bin.len() == 0 {
        assert forall|n: Seq<char>| n != item.name@ implies spec_bin_lookup(
            spec_bin_upsert(bin, item),
            n,
        ) == spec_bin_lookup(bin, n) by {
            let out = spec_bin_upsert(bin, item);
            assert(out =~= seq![item]);
            assert(out[0].name@ == item.name@);
            assert(out.drop_first() =~= Seq::<BinItem>::empty());
            assert(spec_bin_lookup(out, n) == spec_bin_lookup(out.drop_first(), n));
        }
    } else if bin[0].name@ == item.name@ {
        let out = seq![item] + bin.drop_first();
        assert(out.drop_first() =~= bin.drop_first());
        assert forall|n: Seq<char>| n != item.name@ implies spec_bin_lookup(
            spec_bin_upsert(bin, item),
            n,
        ) == spec_bin_lookup(bin, n) by {
            assert(spec_bin_lookup(out, n) == spec_bin_lookup(out.drop_first(), n));
        }
    } else {
        lemma_bin_upsert_props(bin.drop_first(), item);
        let sub = spec_bin_upsert(bin.drop_first(), item);
        let out = seq![bin[0]] + sub;
        assert(out.drop_first() =~= sub);
        assert(out[0] == bin[0]);
        // every name in the sub-result is either a name of the tail or
        // the item's, so the head's name stays unique
        assert forall|i: int, j: int| 0 <= i < j < out.len() implies out[i].name@
            != out[j].name@ by {
            if i == 0 {
                lemma_bin_upsert_names(bin.drop_first(), item, j - 1);
            }
        }
        assert forall|n: Seq<char>| n != item.name@ implies spec_bin_lookup(
            spec_bin_upsert(bin, item),
            n,
        ) == spec_bin_lookup(bin, n) by {
            assert(spec_bin_upsert(bin, item) == out);
            if bin[0].name@ == n {
                assert(spec_bin_lookup(out, n) == Some(out[0].entry));
                assert(spec_bin_lookup(bin, n) == Some(bin[0].entry));
            } else {
                assert(spec_bin_lookup(out, n) == spec_bin_lookup(sub, n));
                assert(spec_bin_lookup(bin, n) == spec_bin_lookup(bin.drop_first(), n));
            }
        }
    }
}

/// Every entry of an upsert result is an entry of the input or the item
/// itself.
pub proof fn lemma_bin_upsert_names(bin: Seq<BinItem>, item: BinItem, i: int)
    requires
        0 <= i < spec_bin_upsert(bin, item).len(),
    ensures
        spec_bin_upsert(bin, item)[i] == item || exists|j: int|
            0 <= j < bin.len() && bin[j] == spec_bin_upsert(bin, item)[i],
    decreases bin.len(),
{
    if bin.len() == 0 {
    } else if bin[0].name@ == item.name@ {
        let out = seq![item] + bin.drop_first();
        if i > 0 {
            assert(bin[i] == out[i]);
        }
    } else {
        let sub = spec_bin_upsert(bin.drop_first(), item);
        let out = seq![bin[0]] + sub;
        if i > 0 {
            lemma_bin_upsert_names(bin.drop_first(), item, i - 1);
            if sub[i - 1] != item {
                let j = choose|j: int|
                    0 <= j < bin.drop_first().len() && bin.drop_first()[j] == sub[i - 1];
                assert(bin[j + 1] == out[i]);
            }
        }
    }
}

/// Removal keeps the listing well formed, drops the name, and touches
/// no other name.
pub proof fn lemma_bin_remove_props(bin: Seq<BinItem>, name: Seq<char>)
    requires
        unique_bin_names(bin),
    ensures
        unique_bin_names(spec_bin_remove(bin, name)),
        spec_bin_lookup(spec_bin_remove(bin, name), name) is None,
        forall|n: Seq<char>| n != name ==> spec_bin_lookup(spec_bin_remove(bin, name), n)
            == spec_bin_lookup(bin, n),
    decreases bin.len(),
{
    lemma_bin_remove_membership(bin, name);
    lemma_bin_lookup_some(spec_bin_remove(bin, name), name);
    assert forall|n: Seq<char>| n != name implies spec_bin_lookup(spec_bin_remove(bin, name), n)
        == spec_bin_lookup(bin, n) by {
        lemma_bin_remove_lookup_other(bin, name, n);
    }
}

/// Removal keeps exactly the entries of other names, in order; here:
/// membership and uniqueness.
pub proof fn lemma_bin_remove_membership(bin: Seq<BinItem>, name: Seq<char>)
    requires
        unique_bin_names(bin),
    ensures
        unique_bin_names(spec_bin_remove(bin, name)),
        forall|i: int| 0 <= i < spec_bin_remove(bin, name).len() ==> (
        spec_bin_remove(bin, name)[i].name@ != name && exists|j: int|
            0 <= j < bin.len() && bin[j] == spec_bin_remove(bin, name)[i]),
    decreases bin.len(),
{
    if bin.len() > 0 {
        let pre = bin.drop_last();
        assert(unique_bin_names(pre)) by {
            assert(forall|i: int| 0 <= i < pre.len() ==> pre[i] == bin[i]);
        }
        lemma_bin_remove_membership(pre, name);
        let rest = spec_bin_remove(pre, name);
        let out = spec_bin_remove(bin, name);
        assert forall|i: int| 0 <= i < out.len() implies (out[i].name@ != name && exists|j: int|
            0 <= j < bin.len() && bin[j] == out[i]) by {
            if bin.last().name@ == name {
                let j = choose|j: int| 0 <= j < pre.len() && pre[j] == out[i];
                assert(bin[j] == out[i]);
            } else {
                if i < rest.len() {
                    let j = choose|j: int| 0 <= j < pre.len() && pre[j] == rest[i];
                    assert(bin[j] == out[i]);
                } else {
                    assert(out[i] == bin.last());
                    assert(bin[bin.len() - 1] == out[i]);
                }
            }
        }
    }
}

proof fn lemma_bin_remove_lookup_other(bin: Seq<BinItem>, name: Seq<char>, n: Seq<char>)
    requires
        unique_bin_names(bin),
        n != name,
    ensures
        spec_bin_lookup(spec_bin_remove(bin, name), n) == spec_bin_lookup(bin, n),
    decreases bin.len(),
{
    if bin.len() == 0 {
    } else {
        let pre = bin.drop_last();
        assert(unique_bin_names(pre)) by {
            assert(forall|i: int| 0 <= i < pre.len() ==> pre[i] == bin[i]);
        }
        lemma_bin_remove_lookup_other(pre, name, n);
        let rest = spec_bin_remove(pre, name);
        lemma_bin_lookup_push(pre, bin.last(), n);
        if bin.last().name@ == name {
            assert(bin =~= pre.push(bin.last()));
        } else {
            lemma_bin_remove_membership(pre, name);
            lemma_bin_lookup_push(rest, bin.last(), n);
            assert(bin =~= pre.push(bin.last()));
        }
    }
}

/// Looking a name up in a listing with one entry appended: the appended
/// entry answers only when no earlier entry has the name.
pub proof fn lemma_bin_lookup_push(bin: Seq<BinItem>, item: BinItem, n: Seq<char>)
    ensures
        spec_bin_lookup(bin.push(item), n) == if spec_bin_lookup(bin, n) is Some {
            spec_bin_lookup(bin, n)
        } else if item.name@ == n {
            Some(item.entry)
        } else {
            None::<BinEntry>
        },
    decreases bin.len(),
{
    if bin.len() == 0 {
        assert(bin.push(item).drop_first() =~= Seq::<BinItem>::empty());
        assert(spec_bin_lookup(Seq::<BinItem>::empty(), n) is None);
    } else {
        lemma_bin_lookup_push(bin.drop_first(), item, n);
        assert(bin.push(item).drop_first() =~= bin.drop_first().push(item));
    }
}

/// Finds the first entry of the given name; `None` means no entry has
/// it.
pub fn bin_find_index(bin: &Vec<BinItem>, name: &Vec<char>) -> (r: Option<usize>)
    ensures
        match r {
            Some(k) => k < bin@.len() && bin@[k as int].name@ == name@ && forall|j: int|
                0 <= j < k ==> bin@[j].name@ != name@,
            None => forall|j: int| 0 <= j < bin@.len() ==> bin@[j].name@ != name@,
        },
{
    let mut i: usize = 0;
    while i < bin.len()
        invariant
            i <= bin@.len(),
            forall|j: int| 0 <= j < i ==> bin@[j].name@ != name@,
        decreases bin@.len() - i,
    {
        if crate::text::chars_eq(&crate::text::chars_of(bin[i].name.as_str()), name) {
            return Some(i);
        }
        i += 1;
    }
    None
}

/// Binds the item's name to the item, replacing an entry of the same
/// name or appending.
pub fn bin_upsert(bin: &mut Vec<BinItem>, item: BinItem)
    ensures
        final(bin)@ == spec_bin_upsert(old(bin)@, item),
{
    let name = crate::text::chars_of(item.name.as_str());
    match bin_find_index(bin, &name) {
        Some(k) => {
            proof {
                lemma_bin_upsert_at(bin@, item, k as int);
            }
            let ghost before = bin@;
            bin.remove(k);
            bin.insert(k, item);
            proof {
                assert(bin@ =~= before.update(k as int, item));
            }
        },
        None => {
            proof {
                lemma_bin_upsert_at(bin@, item, bin@.len() as int);
            }
            bin.push(item);
        },
    }
}

/// Removes every entry of the given name.
pub fn bin_remove(bin: &mut Vec<BinItem>, name: &Vec<char>)
    ensures
        final(bin)@ == spec_bin_remove(old(bin)@, name@),
{
    let ghost orig = old(bin)@;
    let mut out: Vec<BinItem> = Vec::new();
    let ghost k: int = 0;
    proof {
        assert(orig.subrange(0, 0) =~= Seq::<BinItem>::empty());
        assert(spec_bin_remove(orig.subrange(0, 0), name@) =~= Seq::<BinItem>::empty());
    }
    while bin.len() > 0
        invariant
            orig == old(bin)@,
            0 <= k <= orig.len(),
            bin@ == orig.subrange(k, orig.len() as int),
            out@ == spec_bin_remove(orig.subrange(0, k), name@),
        decreases bin@.len(),
    {
        let ghost before = bin@;
        let it = bin.remove(0);
        proof {
            assert(before[0] == orig[k]);
            assert(orig.subrange(0, k + 1).drop_last() =~= orig.subrange(0, k));
            assert(orig.subrange(0, k + 1).last() == orig[k]);
            assert(bin@ =~= orig.subrange(k + 1, orig.len() as int));
        }
        if !crate::text::chars_eq(&crate::text::chars_of(it.name.as_str()), name) {
            out.push(it);
        }
        proof {
            k = k + 1;
        }
    }
    proof {
        assert(orig.subrange(k, orig.len() as int).len() == 0);
        assert(orig.subrange(0, orig.len() as int) =~= orig);
    }
    let mut out = out;
    core::mem::swap(bin, &mut out);
}

/// Whether some string of the list has the given text.
pub fn names_contains(v: &Vec<String>, n: &Vec<char>) -> (r: bool)
    ensures
        r == contains_name(v@, n@),
{
    let mut i: usize = 0;
    while i < v.len()
        invariant
            i <= v@.len(),
            forall|j: int| 0 <= j < i ==> v@[j]@ != n@,
        decreases v@.len() - i,
    {
        if crate::text::chars_eq(&crate::text::chars_of(v[i].as_str()), n) {
            return true;
        }
        i += 1;
    }
    false
}

/// Adds the string unless its text is already present; uniqueness of
/// the list is preserved.
pub fn names_add(v: &mut Vec<String>, s: String)
    requires
        unique_names(old(v)@),
    ensures
        final(v)@ == spec_names_add(old(v)@, s),
        unique_names(final(v)@),
{
    let n = crate::text::chars_of(s.as_str());
    if !names_contains(v, &n) {
        v.push(s);
        proof {
            assert forall|i: int, j: int| 0 <= i < j < v@.len() implies v@[i]@ != v@[j]@ by {
                if j == v@.len() - 1 {
                    assert(old(v)@[i]@ != n@);
                }
            }
        }
    }
}

/// Removes every string of the given text; uniqueness is preserved.
pub fn names_remove(v: &mut Vec<String>, n: &Vec<char>)
    ensures
        final(v)@ == spec_names_remove(old(v)@, n@),
{
    let ghost orig = old(v)@;
    let mut out: Vec<String> = Vec::new();
    let ghost k: int = 0;
    proof {
        assert(orig.subrange(0, 0) =~= Seq::<String>::empty());
        assert(spec_names_remove(orig.subrange(0, 0), n@) =~= Seq::<String>::empty());
    }
    while v.len() > 0
        invariant
            orig == old(v)@,
            0 <= k <= orig.len(),
            v@ == orig.subrange(k, orig.len() as int),
            out@ == spec_names_remove(orig.subrange(0, k), n@),
        decreases v@.len(),
    {
        let ghost before = v@;
        let it = v.remove(0);
        proof {
            assert(before[0] == orig[k]);
            assert(orig.subrange(0, k + 1).drop_last() =~= orig.subrange(0, k));
            assert(orig.subrange(0, k + 1).last() == orig[k]);
            assert(v@ =~= orig.subrange(k + 1, orig.len() as int));
        }
        if !crate::text::chars_eq(&crate::text::chars_of(it.as_str()), n) {
            out.push(it);
        }
        proof {
            k = k + 1;
        }
    }
    proof {
        assert(orig.subrange(k, orig.len() as int).len() == 0);
        assert(orig.subrange(0, orig.len() as int) =~= orig);
    }
    let mut out = out;
    core::mem::swap(v, &mut out);
}

/// Every string a removal keeps is one of the input's; so uniqueness
/// carries over.
pub proof fn lemma_names_remove_props(v: Seq<String>, n: Seq<char>)
    requires
        unique_names(v),
    ensures
        unique_names(spec_names_remove(v, n)),
        forall|i: int| 0 <= i < spec_names_remove(v, n).len() ==> (spec_names_remove(v, n)[i]@
            != n && exists|j: int| 0 <= j < v.len() && v[j] == spec_names_remove(v, n)[i]),
    decreases v.len(),
{
    if v.len() > 0 {
        let pre = v.drop_last();
        assert(unique_names(pre)) by {
            assert(forall|i: int| 0 <= i < pre.len() ==> pre[i] == v[i]);
        }
        lemma_names_remove_props(pre, n);
        let rest = spec_names_remove(pre, n);
        let out = spec_names_remove(v, n);
        assert forall|i: int| 0 <= i < out.len() implies (out[i]@ != n && exists|j: int|
            0 <= j < v.len() && v[j] == out[i]) by {
            if v.last()@ == n || i < rest.len() {
                let j = choose|j: int| 0 <= j < pre.len() && pre[j] == out[i];
                assert(v[j] == out[i]);
            } else {
                assert(out[i] == v.last());
                assert(v[v.len() - 1] == out[i]);
            }
        }
        if v.last()@ != n {
            assert forall|i: int, j: int| 0 <= i < j < out.len() implies out[i]@ != out[j]@ by {
                if j == out.len() - 1 {
                    let t = choose|t: int| 0 <= t < pre.len() && pre[t] == out[i];
                    assert(v[t]@ != v.last()@);
                }
            }
        }
    }
}

/// The lookup a first-match index gives.
pub proof fn lemma_bin_lookup_at(bin: Seq<BinItem>, name: Seq<char>, k: int)
    requires
        0 <= k <= bin.len(),
        forall|j: int| 0 <= j < k ==> bin[j].name@ != name,
        k < bin.len() ==> bin[k].name@ == name,
    ensures
        spec_bin_lookup(bin, name) == if k < bin.len() {
            Some(bin[k].entry)
        } else {
            None::<BinEntry>
        },
    decreases bin.len(),
{
    if bin.len() > 0 && k > 0 {
        lemma_bin_lookup_at(bin.drop_first(), name, k - 1);
    }
}

} // verus!
